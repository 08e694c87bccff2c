//! The tokenizer: one input line becomes arguments, pipes and redirections.

use vstd::prelude::*;
use crate::text::{
    blank, chars_of, is_blank, lemma_trimmed_is_part, string_of, string_of_range, trim, trimmed,
};

verus! {

/// The stream that a redirection reroutes.
#[derive(Debug, Clone, Copy, PartialEq, Eq, Structural)]
pub enum RedirectType {
    Stdout,
    Stderr,
    Both,
}

/// One token of a command line.
#[derive(Debug, Clone, PartialEq, Eq)]
pub enum Token {
    /// An argument, with quotes and escapes resolved.
    Arg(String),
    /// A `|` between two commands.
    Pipe,
    /// A redirection of `type_` to the file at `path`, appending or truncating.
    Redirect { type_: RedirectType, path: String, append: bool },
}

/// Why a line could not be turned into a pipeline.
#[derive(Debug, Clone, Copy, PartialEq, Eq, Structural)]
pub enum ParseError {
    /// The line ends inside a quote.
    UnterminatedQuote,
    /// The line ends after an unquoted backslash.
    TrailingBackslash,
    /// A redirection names no file.
    MissingRedirectTarget,
    /// The line ends after a pipe.
    UnfinishedPipe,
    /// A pipe follows no command.
    EmptyCommand,
}

impl ParseError {
    /// Whether one more line of input could complete the line: it ended
    /// inside a quote or after a pipe.
    pub open spec fn spec_wants_more_input(self) -> bool {
        self == ParseError::UnterminatedQuote || self == ParseError::UnfinishedPipe
    }

    /// Whether one more line of input could complete the line.
    #[verifier::when_used_as_spec(spec_wants_more_input)]
    pub fn wants_more_input(self) -> (b: bool)
        ensures
            b == self.spec_wants_more_input(),
    {
        match self {
            ParseError::UnterminatedQuote => true,
            ParseError::UnfinishedPipe => true,
            _ => false,
        }
    }

    /// The text of the error's report.
    pub open spec fn spec_message(self) -> Seq<char> {
        match self {
            ParseError::UnterminatedQuote => "Unpaired quote"@,
            ParseError::TrailingBackslash => "Trailing backslash"@,
            ParseError::MissingRedirectTarget => "No file specified for redirection"@,
            ParseError::UnfinishedPipe => "Unfinished pipe"@,
            ParseError::EmptyCommand => "Empty command before pipe"@,
        }
    }

    /// The text of the error's report.
    pub fn message(self) -> (s: String)
        ensures
            s@ == self.spec_message(),
    {
        match self {
            ParseError::UnterminatedQuote => "Unpaired quote".to_owned(),
            ParseError::TrailingBackslash => "Trailing backslash".to_owned(),
            ParseError::MissingRedirectTarget => "No file specified for redirection".to_owned(),
            ParseError::UnfinishedPipe => "Unfinished pipe".to_owned(),
            ParseError::EmptyCommand => "Empty command before pipe".to_owned(),
        }
    }
}

/// A token over character sequences.
pub enum TokenModel {
    Arg(Seq<char>),
    Pipe,
    Redirect { type_: RedirectType, path: Seq<char>, append: bool },
}

impl View for Token {
    type V = TokenModel;

    open spec fn view(&self) -> TokenModel {
        match *self {
            Token::Arg(text) => TokenModel::Arg(text@),
            Token::Pipe => TokenModel::Pipe,
            Token::Redirect { type_, path, append } => TokenModel::Redirect {
                type_,
                path: path@,
                append,
            },
        }
    }
}

/// The models of a sequence of tokens.
pub open spec fn token_views(v: Seq<Token>) -> Seq<TokenModel> {
    v.map_values(|t: Token| t@)
}

/// Appending a token appends its model.
pub proof fn lemma_token_views_push(v: Seq<Token>, t: Token)
    ensures
        token_views(v.push(t)) == token_views(v).push(t@),
{
    assert(token_views(v.push(t)) =~= token_views(v).push(t@));
}

/// What a quoted stretch holds: how many characters it spans, the closing
/// quote included, the text it stands for, and whether it was closed.
pub struct Quoted {
    pub len: nat,
    pub text: Seq<char>,
    pub closed: bool,
}

/// The characters that a backslash escapes inside double quotes.
pub open spec fn is_escapable(c: char) -> bool {
    c == '$' || c == '`' || c == '"' || c == '\\' || c == '\n'
}

/// The quoted stretch that starts at `i`, just after the opening `quote`.
/// Inside double quotes a backslash before `$`, a backquote, `"`, `\` or a
/// newline is dropped and the character kept; before any other character
/// both are kept. Inside single quotes everything is literal.
pub open spec fn quoted(s: Seq<char>, i: int, quote: char) -> Quoted
    decreases s.len() - i,
{
    if i < 0 || i >= s.len() {
        Quoted { len: 0, text: Seq::empty(), closed: false }
    } else if s[i] == quote {
        Quoted { len: 1, text: Seq::empty(), closed: true }
    } else if s[i] == '\\' && quote == '"' && i + 1 < s.len() {
        let rest = quoted(s, i + 2, quote);
        let head = if is_escapable(s[i + 1]) {
            seq![s[i + 1]]
        } else {
            seq!['\\', s[i + 1]]
        };
        Quoted { len: rest.len + 2, text: head + rest.text, closed: rest.closed }
    } else {
        let rest = quoted(s, i + 1, quote);
        Quoted { len: rest.len + 1, text: seq![s[i]] + rest.text, closed: rest.closed }
    }
}

/// The number of blanks in a row from `i` on.
pub open spec fn blank_run(s: Seq<char>, i: int) -> nat
    decreases s.len() - i,
{
    if 0 <= i < s.len() && is_blank(s[i]) {
        1 + blank_run(s, i + 1)
    } else {
        0
    }
}

/// Whether `c` can stand in the path of a redirection: it is no blank and
/// no pipe.
pub open spec fn is_path_char(c: char) -> bool {
    !is_blank(c) && c != '|'
}

/// The number of path characters in a row from `i` on.
pub open spec fn path_run(s: Seq<char>, i: int) -> nat
    decreases s.len() - i,
{
    if 0 <= i < s.len() && is_path_char(s[i]) {
        1 + path_run(s, i + 1)
    } else {
        0
    }
}

/// The stream that the word directly before `>` selects.
pub open spec fn stream_of(word: Seq<char>) -> RedirectType {
    if word == seq!['2'] {
        RedirectType::Stderr
    } else if word == seq!['&'] {
        RedirectType::Both
    } else {
        RedirectType::Stdout
    }
}

/// The redirection whose `>` stands just before `i`, after the word `word`:
/// the token, and the number of characters it spans from `i` on. A second
/// `>` asks for appending; blanks before the path are skipped; the path runs
/// up to the next blank or pipe and may not be empty.
pub open spec fn redirection(s: Seq<char>, i: int, word: Seq<char>) -> Result<
    (TokenModel, nat),
    ParseError,
> {
    let append = 0 <= i < s.len() && s[i] == '>';
    let mark: nat = if append {
        1
    } else {
        0
    };
    let gap = blank_run(s, i + mark);
    let start = i + mark + gap;
    let len = path_run(s, start);
    if len == 0 {
        Err(ParseError::MissingRedirectTarget)
    } else {
        Ok(
            (
                TokenModel::Redirect {
                    type_: stream_of(word),
                    path: s.subrange(start, start + len),
                    append,
                },
                mark + gap + len,
            ),
        )
    }
}

/// A quoted stretch ends within the line.
pub proof fn lemma_quoted_within(s: Seq<char>, i: int, quote: char)
    requires
        0 <= i <= s.len(),
    ensures
        i + quoted(s, i, quote).len <= s.len(),
    decreases s.len() - i,
{
    if i < s.len() && s[i] != quote {
        if s[i] == '\\' && quote == '"' && i + 1 < s.len() {
            lemma_quoted_within(s, i + 2, quote);
        } else {
            lemma_quoted_within(s, i + 1, quote);
        }
    }
}

/// A run of blanks ends within the line.
pub proof fn lemma_blank_run_within(s: Seq<char>, i: int)
    requires
        0 <= i <= s.len(),
    ensures
        i + blank_run(s, i) <= s.len(),
    decreases s.len() - i,
{
    if i < s.len() && is_blank(s[i]) {
        lemma_blank_run_within(s, i + 1);
    }
}

/// A run of path characters ends within the line.
pub proof fn lemma_path_run_within(s: Seq<char>, i: int)
    requires
        0 <= i <= s.len(),
    ensures
        i + path_run(s, i) <= s.len(),
    decreases s.len() - i,
{
    if i < s.len() && is_path_char(s[i]) {
        lemma_path_run_within(s, i + 1);
    }
}

/// A redirection ends within the line.
pub proof fn lemma_redirection_within(s: Seq<char>, i: int, word: Seq<char>)
    requires
        0 <= i <= s.len(),
    ensures
        match redirection(s, i, word) {
            Ok((_, len)) => i + len <= s.len(),
            Err(_) => true,
        },
{
    let mark: nat = if i < s.len() && s[i] == '>' {
        1
    } else {
        0
    };
    lemma_blank_run_within(s, i + mark);
    lemma_path_run_within(s, i + mark + blank_run(s, i + mark));
}

/// The tokens so far with the word being read added, if it is not empty.
pub open spec fn flush(out: Seq<TokenModel>, word: Seq<char>) -> Seq<TokenModel> {
    if word.len() > 0 {
        out.push(TokenModel::Arg(word))
    } else {
        out
    }
}

/// The tokens of `s` from `i` on, given the tokens `out` found before and
/// the word `word` being read.
///
/// A quote opens a stretch that is added to the word; an unquoted backslash
/// adds the next character; a blank ends the word; a pipe ends the word and
/// gives a `Pipe`, and must be followed by more than blanks; `>` turns the
/// word into the choice of stream and gives a `Redirect`; any other
/// character is added to the word.
pub open spec fn lex(s: Seq<char>, i: int, word: Seq<char>, out: Seq<TokenModel>) -> Result<
    Seq<TokenModel>,
    ParseError,
>
    decreases s.len() - i,
{
    if i < 0 || i >= s.len() {
        Ok(flush(out, word))
    } else {
        let c = s[i];
        if c == '\'' || c == '"' {
            let q = quoted(s, i + 1, c);
            proof {
                lemma_quoted_within(s, i + 1, c);
            }
            if q.closed {
                lex(s, i + 1 + q.len, word + q.text, out)
            } else {
                Err(ParseError::UnterminatedQuote)
            }
        } else if c == '\\' {
            if i + 1 < s.len() {
                lex(s, i + 2, word.push(s[i + 1]), out)
            } else {
                Err(ParseError::TrailingBackslash)
            }
        } else if is_blank(c) {
            lex(s, i + 1, Seq::empty(), flush(out, word))
        } else if c == '|' {
            if i + 1 + blank_run(s, i + 1) >= s.len() {
                Err(ParseError::UnfinishedPipe)
            } else {
                lex(s, i + 1, Seq::empty(), flush(out, word).push(TokenModel::Pipe))
            }
        } else if c == '>' {
            proof {
                lemma_redirection_within(s, i + 1, word);
            }
            match redirection(s, i + 1, word) {
                Err(e) => Err(e),
                Ok((token, len)) => lex(s, i + 1 + len, Seq::empty(), out.push(token)),
            }
        } else {
            lex(s, i + 1, word.push(c), out)
        }
    }
}

/// The tokens of a line: those of the line without the white space around
/// it.
pub open spec fn tokenize_spec(line: Seq<char>) -> Result<Seq<TokenModel>, ParseError> {
    lex(trimmed(line), 0, Seq::empty(), Seq::empty())
}

/// Whether a token holds text: an argument is not empty, and a redirection
/// names a file.
pub open spec fn holds_text(token: TokenModel) -> bool {
    match token {
        TokenModel::Arg(text) => text.len() > 0,
        TokenModel::Pipe => true,
        TokenModel::Redirect { path, .. } => path.len() > 0,
    }
}

/// Every token that the tokenizer gives holds text, if those found before
/// do.
pub proof fn lemma_lex_tokens_hold_text(
    s: Seq<char>,
    i: int,
    word: Seq<char>,
    out: Seq<TokenModel>,
)
    requires
        0 <= i,
        forall|k: int| 0 <= k < out.len() ==> holds_text(#[trigger] out[k]),
    ensures
        match lex(s, i, word, out) {
            Ok(tokens) => forall|k: int| 0 <= k < tokens.len() ==> holds_text(#[trigger] tokens[k]),
            Err(_) => true,
        },
    decreases s.len() - i,
{
    if i < s.len() {
        let c = s[i];
        if c == '\'' || c == '"' {
            let q = quoted(s, i + 1, c);
            lemma_quoted_within(s, i + 1, c);
            if q.closed {
                lemma_lex_tokens_hold_text(s, i + 1 + q.len, word + q.text, out);
            }
        } else if c == '\\' {
            if i + 1 < s.len() {
                lemma_lex_tokens_hold_text(s, i + 2, word.push(s[i + 1]), out);
            }
        } else if is_blank(c) {
            lemma_lex_tokens_hold_text(s, i + 1, Seq::empty(), flush(out, word));
        } else if c == '|' {
            if i + 1 + blank_run(s, i + 1) < s.len() {
                lemma_lex_tokens_hold_text(
                    s,
                    i + 1,
                    Seq::empty(),
                    flush(out, word).push(TokenModel::Pipe),
                );
            }
        } else if c == '>' {
            lemma_redirection_within(s, i + 1, word);
            match redirection(s, i + 1, word) {
                Err(_) => {},
                Ok((token, len)) => {
                    lemma_lex_tokens_hold_text(s, i + 1 + len, Seq::empty(), out.push(token));
                },
            }
        } else {
            lemma_lex_tokens_hold_text(s, i + 1, word.push(c), out);
        }
    }
}

/// Every token of a line holds text: no argument is empty and every
/// redirection names a file.
pub proof fn lemma_tokens_hold_text(line: Seq<char>)
    ensures
        match tokenize_spec(line) {
            Ok(tokens) => forall|k: int| 0 <= k < tokens.len() ==> holds_text(#[trigger] tokens[k]),
            Err(_) => true,
        },
{
    lemma_lex_tokens_hold_text(trimmed(line), 0, Seq::empty(), Seq::empty());
}

/// Over blanks alone the tokenizer finds nothing more.
pub proof fn lemma_lex_blanks(s: Seq<char>, i: int, out: Seq<TokenModel>)
    requires
        0 <= i,
        forall|k: int| i <= k < s.len() ==> is_blank(#[trigger] s[k]),
    ensures
        lex(s, i, Seq::empty(), out) == Ok::<Seq<TokenModel>, ParseError>(out),
    decreases s.len() - i,
{
    if i < s.len() {
        assert(is_blank(s[i]));
        lemma_lex_blanks(s, i + 1, out);
    }
}

/// A line of blanks alone, or an empty line, has no token.
pub proof fn lemma_blank_line_has_no_token(line: Seq<char>)
    requires
        forall|k: int| 0 <= k < line.len() ==> is_blank(#[trigger] line[k]),
    ensures
        tokenize_spec(line) == Ok::<Seq<TokenModel>, ParseError>(Seq::empty()),
{
    let t = trimmed(line);
    lemma_trimmed_is_part(line);
    lemma_lex_blanks(t, 0, Seq::empty());
}

/// Reads the quoted stretch that starts at `start`, just after the opening
/// `quote`. Returns its text, whether it was closed, and the position after
/// it.
pub fn parse_quoted_string(v: &Vec<char>, start: usize, quote: char) -> (r: (Vec<char>, bool, usize))
    requires
        start <= v.len(),
    ensures
        r.0@ == quoted(v@, start as int, quote).text,
        r.1 == quoted(v@, start as int, quote).closed,
        r.2 == start + quoted(v@, start as int, quote).len,
        r.2 <= v.len(),
{
    let ghost whole = quoted(v@, start as int, quote);
    let mut chunk: Vec<char> = Vec::new();
    let mut i: usize = start;
    while i < v.len()
        invariant
            start <= i <= v.len(),
            whole == quoted(v@, start as int, quote),
            chunk@ + quoted(v@, i as int, quote).text == whole.text,
            quoted(v@, i as int, quote).closed == whole.closed,
            i - start + quoted(v@, i as int, quote).len == whole.len,
        decreases v.len() - i,
    {
        let ch = v[i];
        let ghost here = quoted(v@, i as int, quote);
        let ghost before = chunk@;
        if ch == quote {
            assert(before + here.text =~= before);
            return (chunk, true, i + 1);
        }
        if ch == '\\' && quote == '"' && i + 1 < v.len() {
            let next = v[i + 1];
            if !(next == '$' || next == '`' || next == '"' || next == '\\' || next == '\n') {
                chunk.push('\\');
            }
            chunk.push(next);
            assert(chunk@ + quoted(v@, i + 2, quote).text =~= before + here.text);
            i += 2;
        } else {
            chunk.push(ch);
            assert(chunk@ + quoted(v@, i + 1, quote).text =~= before + here.text);
            i += 1;
        }
    }
    assert(chunk@ + quoted(v@, i as int, quote).text =~= chunk@);
    (chunk, false, i)
}

/// Skips the blanks from `start` on and returns the position after them.
fn skip_blanks(v: &Vec<char>, start: usize) -> (end: usize)
    requires
        start <= v.len(),
    ensures
        end == start + blank_run(v@, start as int),
        end <= v.len(),
{
    let mut i: usize = start;
    while i < v.len() && blank(v[i])
        invariant
            start <= i <= v.len(),
            i + blank_run(v@, i as int) == start + blank_run(v@, start as int),
        decreases v.len() - i,
    {
        i += 1;
    }
    i
}

/// Reads the redirection whose `>` stands just before `start`, after the
/// word `fd_arg`. Returns the token and the position after it.
pub fn handle_redirection(v: &Vec<char>, start: usize, fd_arg: &Vec<char>) -> (r: Result<
    (Token, usize),
    ParseError,
>)
    requires
        start <= v.len(),
    ensures
        match (r, redirection(v@, start as int, fd_arg@)) {
            (Ok((token, next)), Ok((model, len))) => token@ == model && next == start + len && next
                <= v.len(),
            (Err(e), Err(f)) => e == f,
            _ => false,
        },
{
    let append = start < v.len() && v[start] == '>';
    let after_mark: usize = if append {
        start + 1
    } else {
        start
    };
    let from = skip_blanks(v, after_mark);
    let mut to: usize = from;
    while to < v.len() && !blank(v[to]) && v[to] != '|'
        invariant
            from <= to <= v.len(),
            to + path_run(v@, to as int) == from + path_run(v@, from as int),
        decreases v.len() - to,
    {
        to += 1;
    }
    if to == from {
        return Err(ParseError::MissingRedirectTarget);
    }
    let path = string_of_range(v, from, to);
    let type_ = if fd_arg.len() == 1 && fd_arg[0] == '2' {
        assert(fd_arg@ =~= seq!['2']);
        RedirectType::Stderr
    } else if fd_arg.len() == 1 && fd_arg[0] == '&' {
        assert(fd_arg@ =~= seq!['&']);
        RedirectType::Both
    } else {
        assert(fd_arg@ != seq!['2'] && fd_arg@ != seq!['&']) by {
            if fd_arg@.len() == 1 {
                assert(seq!['2'][0] == '2');
                assert(seq!['&'][0] == '&');
            } else {
                assert(seq!['2'].len() == 1);
                assert(seq!['&'].len() == 1);
            }
        }
        RedirectType::Stdout
    };
    Ok((Token::Redirect { type_, path, append }, to))
}

/// Turns one input line into its tokens.
///
/// White space around the line is ignored. Blanks outside quotes separate
/// arguments. Single quotes keep their content literally; inside double
/// quotes a backslash escapes only `$`, a backquote, `"`, `\` and a newline;
/// an unquoted backslash keeps the next character. A `|` gives a `Pipe`; `>`
/// or `>>` gives a `Redirect` to the path that follows, of the stream that
/// the word directly before it selects (`2` the error stream, `&` both, any
/// other the output); that word gives no argument.
///
/// A line that ends inside a quote, after an unquoted backslash or after a
/// pipe, and a redirection without a path, are refused.
pub fn tokenize(input: &str) -> (r: Result<Vec<Token>, ParseError>)
    ensures
        match (r, tokenize_spec(input@)) {
            (Ok(tokens), Ok(models)) => token_views(tokens@) == models,
            (Err(e), Err(f)) => e == f,
            _ => false,
        },
{
    let line = trim(input);
    let v = chars_of(line.as_str());
    let mut tokens: Vec<Token> = Vec::new();
    let mut cur_token: Vec<char> = Vec::new();
    let mut i: usize = 0;
    assert(token_views(tokens@) =~= Seq::empty());
    assert(cur_token@ =~= Seq::empty());
    while i < v.len()
        invariant
            0 <= i <= v.len(),
            v@ == trimmed(input@),
            lex(v@, i as int, cur_token@, token_views(tokens@)) == tokenize_spec(input@),
        decreases v.len() - i,
    {
        let ch = v[i];
        if ch == '\'' || ch == '"' {
            let (mut quoted, closed, next) = parse_quoted_string(&v, i + 1, ch);
            if !closed {
                return Err(ParseError::UnterminatedQuote);
            }
            cur_token.append(&mut quoted);
            i = next;
        } else if ch == '\\' {
            if i + 1 < v.len() {
                cur_token.push(v[i + 1]);
                i += 2;
            } else {
                return Err(ParseError::TrailingBackslash);
            }
        } else if blank(ch) {
            if cur_token.len() > 0 {
                let arg = Token::Arg(string_of(&cur_token));
                proof {
                    lemma_token_views_push(tokens@, arg);
                }
                tokens.push(arg);
                cur_token = Vec::new();
            }
            assert(cur_token@ =~= Seq::empty());
            i += 1;
        } else if ch == '>' {
            match handle_redirection(&v, i + 1, &cur_token) {
                Err(e) => {
                    return Err(e);
                },
                Ok((token, next)) => {
                    proof {
                        lemma_token_views_push(tokens@, token);
                    }
                    tokens.push(token);
                    cur_token = Vec::new();
                    i = next;
                },
            }
        } else if ch == '|' {
            let rest = skip_blanks(&v, i + 1);
            if rest >= v.len() {
                return Err(ParseError::UnfinishedPipe);
            }
            if cur_token.len() > 0 {
                let arg = Token::Arg(string_of(&cur_token));
                proof {
                    lemma_token_views_push(tokens@, arg);
                }
                tokens.push(arg);
                cur_token = Vec::new();
            }
            proof {
                lemma_token_views_push(tokens@, Token::Pipe);
            }
            tokens.push(Token::Pipe);
            assert(cur_token@ =~= Seq::empty());
            i += 1;
        } else {
            cur_token.push(ch);
            i += 1;
        }
    }
    if cur_token.len() > 0 {
        let arg = Token::Arg(string_of(&cur_token));
        proof {
            lemma_token_views_push(tokens@, arg);
        }
        tokens.push(arg);
    }
    Ok(tokens)
}

} // verus!
