//! A small command-line parser: words with quotes and escapes, split into the
//! commands of a pipeline.

use vstd::prelude::*;
use crate::text::{blank, chars_of, is_blank, lemma_texts_push, string_of, texts, trim, trimmed};

verus! {

/// A parsed command line.
#[derive(Debug, PartialEq)]
pub enum Command {
    /// A command name and its arguments.
    SimpleCommand(String, Vec<String>),
    /// Two or more simple commands joined by `|`.
    PipeCommand(Vec<Command>),
    /// A line that could not be parsed, with the reason.
    InvalidCommand(String),
}

/// What a `Command` stands for, over character sequences.
pub enum Parsed {
    Simple(Seq<char>, Seq<Seq<char>>),
    Pipe(Seq<Parsed>),
    Invalid(Seq<char>),
}

/// `c` is the simple or invalid command that `p` describes.
pub open spec fn models_flat(c: Command, p: Parsed) -> bool {
    match (c, p) {
        (Command::SimpleCommand(name, args), Parsed::Simple(n, a)) => name@ == n && texts(args@) == a,
        (Command::InvalidCommand(msg), Parsed::Invalid(m)) => msg@ == m,
        _ => false,
    }
}

/// `c` is the command that `p` describes.
pub open spec fn models(c: Command, p: Parsed) -> bool {
    match (c, p) {
        (Command::PipeCommand(cmds), Parsed::Pipe(ps)) => {
            &&& cmds@.len() == ps.len()
            &&& forall|i: int| 0 <= i < ps.len() ==> models_flat(#[trigger] cmds@[i], ps[i])
        },
        _ => models_flat(c, p),
    }
}

/// The reason given for a line or a part without words.
pub open spec fn msg_empty_command() -> Seq<char> {
    "Empty command"@
}

/// The reason given for a line that ends after a backslash.
pub open spec fn msg_trailing_backslash() -> Seq<char> {
    "Trailing backslash"@
}

/// The reason given for a line that ends inside a quote.
pub open spec fn msg_unpaired_quote() -> Seq<char> {
    "Unpaired quote"@
}

/// The state of a scan over a line: the pieces finished so far, the piece
/// being read, and whether the scan stands inside quotes or after a backslash.
pub struct Scan {
    pub done: Seq<Seq<char>>,
    pub cur: Seq<char>,
    pub single: bool,
    pub double: bool,
    pub escaped: bool,
}

/// The state before the first character.
pub open spec fn scan_start() -> Scan {
    Scan { done: Seq::empty(), cur: Seq::empty(), single: false, double: false, escaped: false }
}

/// The state with `c` added to the piece being read.
pub open spec fn keep(st: Scan, c: char) -> Scan {
    Scan { cur: st.cur.push(c), ..st }
}

/// One character of the word scan. A backslash outside single quotes takes
/// the next character literally; quotes of one kind are literal inside the
/// other; a blank outside quotes ends the word being read.
pub open spec fn word_step(st: Scan, c: char) -> Scan {
    if st.escaped {
        Scan { cur: st.cur.push(c), escaped: false, ..st }
    } else if c == '\\' {
        if st.single {
            keep(st, c)
        } else {
            Scan { escaped: true, ..st }
        }
    } else if c == '\'' {
        if st.double {
            keep(st, c)
        } else {
            Scan { single: !st.single, ..st }
        }
    } else if c == '"' {
        if st.single {
            keep(st, c)
        } else {
            Scan { double: !st.double, ..st }
        }
    } else if is_blank(c) {
        if st.single || st.double {
            keep(st, c)
        } else if st.cur.len() > 0 {
            Scan { done: st.done.push(st.cur), cur: Seq::empty(), ..st }
        } else {
            st
        }
    } else {
        keep(st, c)
    }
}

/// The word scan after the first `n` characters of `s`.
pub open spec fn word_scan(s: Seq<char>, n: int) -> Scan
    decreases n,
{
    if n <= 0 {
        scan_start()
    } else {
        word_step(word_scan(s, n - 1), s[n - 1])
    }
}

/// What is wrong with a line whose scan ended in `st`, if anything.
pub open spec fn scan_error(st: Scan) -> Option<Seq<char>> {
    if st.escaped {
        Some(msg_trailing_backslash())
    } else if st.single || st.double {
        Some(msg_unpaired_quote())
    } else {
        None
    }
}

/// The words of `s`, or the reason why it has none.
pub open spec fn tokenize_spec(s: Seq<char>) -> Result<Seq<Seq<char>>, Seq<char>> {
    let st = word_scan(s, s.len() as int);
    match scan_error(st) {
        Some(e) => Err(e),
        None => Ok(
            if st.cur.len() > 0 {
                st.done.push(st.cur)
            } else {
                st.done
            },
        ),
    }
}

/// One character of the split at pipes. Every character is kept; a `|`
/// outside quotes and not after a backslash ends the part being read.
pub open spec fn pipe_step(st: Scan, c: char) -> Scan {
    if st.escaped {
        Scan { cur: st.cur.push(c), escaped: false, ..st }
    } else if c == '\\' {
        Scan { cur: st.cur.push(c), escaped: true, ..st }
    } else if c == '\'' {
        Scan { cur: st.cur.push(c), single: if st.double { st.single } else { !st.single }, ..st }
    } else if c == '"' {
        Scan { cur: st.cur.push(c), double: if st.single { st.double } else { !st.double }, ..st }
    } else if c == '|' && !st.single && !st.double {
        Scan { done: st.done.push(st.cur), cur: Seq::empty(), ..st }
    } else {
        keep(st, c)
    }
}

/// The split at pipes after the first `n` characters of `s`.
pub open spec fn pipe_scan(s: Seq<char>, n: int) -> Scan
    decreases n,
{
    if n <= 0 {
        scan_start()
    } else {
        pipe_step(pipe_scan(s, n - 1), s[n - 1])
    }
}

/// The parts of `s` between its unquoted pipes, or the reason why it cannot
/// be split.
pub open spec fn split_spec(s: Seq<char>) -> Result<Seq<Seq<char>>, Seq<char>> {
    let st = pipe_scan(s, s.len() as int);
    match scan_error(st) {
        Some(e) => Err(e),
        None => Ok(st.done.push(st.cur)),
    }
}

/// Splits a line into words. Single quotes keep everything literally, a
/// backslash elsewhere keeps the next character, and blanks outside quotes
/// separate words. A line that ends after a backslash or inside a quote is
/// refused.
pub fn tokenize(s: &str) -> (r: Result<Vec<String>, String>)
    ensures
        match (r, tokenize_spec(s@)) {
            (Ok(words), Ok(w)) => texts(words@) == w,
            (Err(e), Err(m)) => e@ == m,
            _ => false,
        },
{
    let v = chars_of(s);
    let mut tokens: Vec<String> = Vec::new();
    let mut current: Vec<char> = Vec::new();
    let mut in_single_quote = false;
    let mut in_double_quote = false;
    let mut escaped = false;
    let mut i: usize = 0;
    assert(texts(tokens@) =~= scan_start().done);
    while i < v.len()
        invariant
            0 <= i <= v.len(),
            v@ == s@,
            word_scan(s@, i as int) == (Scan {
                done: texts(tokens@),
                cur: current@,
                single: in_single_quote,
                double: in_double_quote,
                escaped,
            }),
        decreases v.len() - i,
    {
        let c = v[i];
        let ghost before = word_scan(s@, i as int);
        assert(word_scan(s@, i + 1) == word_step(before, c));
        if escaped {
            current.push(c);
            escaped = false;
        } else if c == '\\' {
            if in_single_quote {
                current.push(c);
            } else {
                escaped = true;
            }
        } else if c == '\'' {
            if in_double_quote {
                current.push(c);
            } else {
                in_single_quote = !in_single_quote;
            }
        } else if c == '"' {
            if in_single_quote {
                current.push(c);
            } else {
                in_double_quote = !in_double_quote;
            }
        } else if blank(c) {
            if in_single_quote || in_double_quote {
                current.push(c);
            } else if current.len() > 0 {
                let word = string_of(&current);
                proof {
                    lemma_texts_push(tokens@, word);
                }
                tokens.push(word);
                current = Vec::new();
            }
        } else {
            current.push(c);
        }
        i += 1;
    }
    if escaped {
        return Err("Trailing backslash".to_owned());
    }
    if in_single_quote || in_double_quote {
        return Err("Unpaired quote".to_owned());
    }
    if current.len() > 0 {
        let word = string_of(&current);
        proof {
            lemma_texts_push(tokens@, word);
        }
        tokens.push(word);
    }
    Ok(tokens)
}

/// Splits a line at the pipes that stand outside quotes and are not escaped.
/// The parts keep their quotes and backslashes. A line that ends after a
/// backslash or inside a quote is refused.
pub fn split_by_pipe(s: &str) -> (r: Result<Vec<String>, String>)
    ensures
        match (r, split_spec(s@)) {
            (Ok(parts), Ok(p)) => texts(parts@) == p,
            (Err(e), Err(m)) => e@ == m,
            _ => false,
        },
{
    let v = chars_of(s);
    let mut parts: Vec<String> = Vec::new();
    let mut current: Vec<char> = Vec::new();
    let mut in_single_quote = false;
    let mut in_double_quote = false;
    let mut escaped = false;
    let mut i: usize = 0;
    assert(texts(parts@) =~= scan_start().done);
    while i < v.len()
        invariant
            0 <= i <= v.len(),
            v@ == s@,
            pipe_scan(s@, i as int) == (Scan {
                done: texts(parts@),
                cur: current@,
                single: in_single_quote,
                double: in_double_quote,
                escaped,
            }),
        decreases v.len() - i,
    {
        let c = v[i];
        let ghost before = pipe_scan(s@, i as int);
        assert(pipe_scan(s@, i + 1) == pipe_step(before, c));
        if escaped {
            current.push(c);
            escaped = false;
        } else if c == '\\' {
            escaped = true;
            current.push(c);
        } else if c == '\'' {
            if !in_double_quote {
                in_single_quote = !in_single_quote;
            }
            current.push(c);
        } else if c == '"' {
            if !in_single_quote {
                in_double_quote = !in_double_quote;
            }
            current.push(c);
        } else if c == '|' && !in_single_quote && !in_double_quote {
            let part = string_of(&current);
            proof {
                lemma_texts_push(parts@, part);
            }
            parts.push(part);
            current = Vec::new();
        } else {
            current.push(c);
        }
        i += 1;
    }
    if escaped {
        return Err("Trailing backslash".to_owned());
    }
    if in_single_quote || in_double_quote {
        return Err("Unpaired quote".to_owned());
    }
    let part = string_of(&current);
    proof {
        lemma_texts_push(parts@, part);
    }
    parts.push(part);
    Ok(parts)
}

/// The command that one part of a pipeline stands for: its first word is the
/// name, the others are the arguments.
pub open spec fn parse_simple_spec(s: Seq<char>) -> Parsed {
    match tokenize_spec(s) {
        Err(e) => Parsed::Invalid(e),
        Ok(words) => if words.len() == 0 {
            Parsed::Invalid(msg_empty_command())
        } else {
            Parsed::Simple(words[0], words.subrange(1, words.len() as int))
        },
    }
}

/// The first position at or after `k` whose part is no valid command, or the
/// number of parts if there is none.
pub open spec fn first_invalid(parts: Seq<Seq<char>>, k: int) -> int
    decreases parts.len() - k,
{
    if k < 0 || k >= parts.len() {
        parts.len() as int
    } else if parse_simple_spec(parts[k]) is Invalid {
        k
    } else {
        first_invalid(parts, k + 1)
    }
}

/// The command made of the given parts: the first invalid part if there is
/// one, the single command if there is one part, else the pipeline of all.
pub open spec fn assemble(parts: Seq<Seq<char>>) -> Parsed {
    let k = first_invalid(parts, 0);
    if k < parts.len() {
        parse_simple_spec(parts[k])
    } else if parts.len() == 1 {
        parse_simple_spec(parts[0])
    } else {
        Parsed::Pipe(parts.map_values(|p: Seq<char>| parse_simple_spec(p)))
    }
}

/// The command that a line stands for.
pub open spec fn parse_spec(s: Seq<char>) -> Parsed {
    let t = trimmed(s);
    if t.len() == 0 {
        Parsed::Invalid(msg_empty_command())
    } else {
        match split_spec(t) {
            Err(e) => Parsed::Invalid(e),
            Ok(parts) => assemble(parts),
        }
    }
}

/// Parses one part of a pipeline: its words, the first being the command's
/// name. A part without words is invalid.
pub fn parse_simple(s: &str) -> (r: Command)
    ensures
        models_flat(r, parse_simple_spec(s@)),
{
    match tokenize(s) {
        Err(e) => Command::InvalidCommand(e),
        Ok(tokens) => {
            if tokens.len() == 0 {
                return Command::InvalidCommand("Empty command".to_owned());
            }
            let mut args = tokens;
            let ghost all = texts(args@);
            let cmd = args.remove(0);
            assert(texts(args@) =~= all.subrange(1, all.len() as int));
            Command::SimpleCommand(cmd, args)
        },
    }
}

/// Parses a command line. White space around it is ignored. An empty line,
/// a line that ends after a backslash or inside a quote, and a line with an
/// empty part between pipes are invalid; a line without pipes is a simple
/// command; any other is the pipeline of its parts, in order.
pub fn parse(s: &str) -> (r: Command)
    ensures
        models(r, parse_spec(s@)),
{
    let line = trim(s);
    if line.as_str().is_empty() {
        return Command::InvalidCommand("Empty command".to_owned());
    }
    let parts = match split_by_pipe(line.as_str()) {
        Ok(p) => p,
        Err(e) => {
            return Command::InvalidCommand(e);
        },
    };
    let ghost ps = texts(parts@);
    let mut commands: Vec<Command> = Vec::new();
    let mut i: usize = 0;
    assert(parse_spec(s@) == assemble(ps));
    while i < parts.len()
        invariant
            0 <= i <= parts.len(),
            ps == texts(parts@),
            parse_spec(s@) == assemble(ps),
            commands@.len() == i,
            first_invalid(ps, 0) == first_invalid(ps, i as int),
            forall|j: int|
                0 <= j < i ==> models_flat(#[trigger] commands@[j], parse_simple_spec(ps[j])),
        decreases parts.len() - i,
    {
        let cmd = parse_simple(parts[i].as_str());
        assert(ps[i as int] == parts@[i as int]@);
        match cmd {
            Command::InvalidCommand(msg) => {
                return Command::InvalidCommand(msg);
            },
            valid => {
                commands.push(valid);
            },
        }
        i += 1;
    }
    if commands.len() == 1 {
        match commands.pop() {
            Some(only) => only,
            None => Command::PipeCommand(commands),
        }
    } else {
        Command::PipeCommand(commands)
    }
}

} // verus!
