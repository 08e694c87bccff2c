//! One stage of a pipeline: a command name, its arguments and its
//! redirections; and the fixed set of built-in commands.

use vstd::prelude::*;
use crate::builtins::{builtin_effect, run, text_of, Outcome, OutcomeModel};
use crate::history::History;
use crate::text::{lemma_texts_push, push_text, same_text, texts};
use crate::token::{ParseError, RedirectType};

verus! {

/// The commands that the shell runs itself.
#[derive(Debug, Clone, Copy, PartialEq, Eq, Structural)]
pub enum Builtin {
    Cd,
    Echo,
    Exit,
    History,
    Pwd,
    Type,
}

impl Builtin {
    /// The name under which the command is called.
    pub open spec fn spec_name(self) -> Seq<char> {
        match self {
            Builtin::Cd => "cd"@,
            Builtin::Echo => "echo"@,
            Builtin::Exit => "exit"@,
            Builtin::History => "history"@,
            Builtin::Pwd => "pwd"@,
            Builtin::Type => "type"@,
        }
    }

    /// The built-in command of exactly this name, if there is one.
    pub open spec fn named(name: Seq<char>) -> Option<Builtin> {
        if name == "cd"@ {
            Some(Builtin::Cd)
        } else if name == "echo"@ {
            Some(Builtin::Echo)
        } else if name == "exit"@ {
            Some(Builtin::Exit)
        } else if name == "history"@ {
            Some(Builtin::History)
        } else if name == "pwd"@ {
            Some(Builtin::Pwd)
        } else if name == "type"@ {
            Some(Builtin::Type)
        } else {
            None
        }
    }

    /// The name under which the command is called.
    pub fn name(self) -> (s: &'static str)
        ensures
            s@ == self.spec_name(),
    {
        match self {
            Builtin::Cd => "cd",
            Builtin::Echo => "echo",
            Builtin::Exit => "exit",
            Builtin::History => "history",
            Builtin::Pwd => "pwd",
            Builtin::Type => "type",
        }
    }

    /// The built-in command of exactly this name, if there is one.
    pub fn from_name(name: &str) -> (r: Option<Builtin>)
        ensures
            r == Builtin::named(name@),
    {
        if same_text(name, "cd") {
            Some(Builtin::Cd)
        } else if same_text(name, "echo") {
            Some(Builtin::Echo)
        } else if same_text(name, "exit") {
            Some(Builtin::Exit)
        } else if same_text(name, "history") {
            Some(Builtin::History)
        } else if same_text(name, "pwd") {
            Some(Builtin::Pwd)
        } else if same_text(name, "type") {
            Some(Builtin::Type)
        } else {
            None
        }
    }

    /// Every built-in command, in the order of their names.
    pub fn every() -> (v: Vec<Builtin>)
        ensures
            v@ == seq![
                Builtin::Cd,
                Builtin::Echo,
                Builtin::Exit,
                Builtin::History,
                Builtin::Pwd,
                Builtin::Type,
            ],
    {
        let mut v: Vec<Builtin> = Vec::new();
        v.push(Builtin::Cd);
        v.push(Builtin::Echo);
        v.push(Builtin::Exit);
        v.push(Builtin::History);
        v.push(Builtin::Pwd);
        v.push(Builtin::Type);
        assert(v@ =~= seq![
            Builtin::Cd,
            Builtin::Echo,
            Builtin::Exit,
            Builtin::History,
            Builtin::Pwd,
            Builtin::Type,
        ]);
        v
    }
}

/// Each built-in command is found again under its own name.
pub proof fn lemma_builtin_found_by_name(b: Builtin)
    ensures
        Builtin::named(b.spec_name()) == Some(b),
{
    reveal_strlit("cd");
    reveal_strlit("echo");
    reveal_strlit("exit");
    reveal_strlit("history");
    reveal_strlit("pwd");
    reveal_strlit("type");
    assert("cd"@.len() == 2);
    assert("echo"@.len() == 4 && "echo"@[1] == 'c');
    assert("exit"@.len() == 4 && "exit"@[1] == 'x');
    assert("history"@.len() == 7);
    assert("pwd"@.len() == 3);
    assert("type"@.len() == 4 && "type"@[1] == 'y');
}

/// One redirection of a stage.
#[derive(Debug, Clone, PartialEq, Eq)]
pub struct Redirect {
    pub type_: RedirectType,
    pub path: String,
    pub append: bool,
}

/// A redirection over character sequences.
pub struct RedirectModel {
    pub type_: RedirectType,
    pub path: Seq<char>,
    pub append: bool,
}

impl View for Redirect {
    type V = RedirectModel;

    open spec fn view(&self) -> RedirectModel {
        RedirectModel { type_: self.type_, path: self.path@, append: self.append }
    }
}

/// The models of a sequence of redirections.
pub open spec fn redirect_views(v: Seq<Redirect>) -> Seq<RedirectModel> {
    v.map_values(|r: Redirect| r@)
}

/// Whether a redirection of this kind reroutes the error stream
/// (`to_err`) or the output stream.
pub open spec fn reroutes(kind: RedirectType, to_err: bool) -> bool {
    kind == RedirectType::Both || (to_err <==> kind == RedirectType::Stderr)
}

/// The position of the last of the first `n` redirections that reroutes the
/// given stream: later redirections of a stream override earlier ones.
pub open spec fn effective_redirect(rs: Seq<RedirectModel>, to_err: bool, n: int) -> Option<int>
    decreases n,
{
    if n <= 0 || n > rs.len() {
        None
    } else if reroutes(rs[n - 1].type_, to_err) {
        Some(n - 1)
    } else {
        effective_redirect(rs, to_err, n - 1)
    }
}

/// The redirection that decides for a stream is the last one that reroutes
/// it: it reroutes the stream and none after it does; and where none
/// decides, none reroutes the stream.
pub proof fn lemma_effective_is_last(rs: Seq<RedirectModel>, to_err: bool, n: int)
    requires
        0 <= n <= rs.len(),
    ensures
        match effective_redirect(rs, to_err, n) {
            Some(k) => 0 <= k < n && reroutes(rs[k].type_, to_err) && forall|j: int|
                k < j < n ==> !reroutes(#[trigger] rs[j].type_, to_err),
            None => forall|j: int| 0 <= j < n ==> !reroutes(#[trigger] rs[j].type_, to_err),
        },
    decreases n,
{
    if n > 0 && !reroutes(rs[n - 1].type_, to_err) {
        lemma_effective_is_last(rs, to_err, n - 1);
    }
}

/// A redirection of both streams that comes last decides for both: the
/// output and the errors share its file.
pub proof fn lemma_both_shares_one_file(stage: Stage)
    requires
        stage.redirects.len() > 0,
        stage.redirects.last().type_ == RedirectType::Both,
    ensures
        stage.output_redirect() == Some(stage.redirects.len() - 1),
        stage.error_redirect() == Some(stage.redirects.len() - 1),
{
}

/// What a stage holds. A stage without a name is empty.
pub struct Stage {
    pub name: Seq<char>,
    pub args: Seq<Seq<char>>,
    pub redirects: Seq<RedirectModel>,
}

impl Stage {
    /// The stage without name, arguments and redirections.
    pub open spec fn empty() -> Stage {
        Stage { name: Seq::empty(), args: Seq::empty(), redirects: Seq::empty() }
    }

    /// The stage with one more word: the first word is the name, the others
    /// are the arguments.
    pub open spec fn with_arg(self, arg: Seq<char>) -> Stage {
        if self.name.len() == 0 {
            Stage { name: arg, ..self }
        } else {
            Stage { args: self.args.push(arg), ..self }
        }
    }

    /// The stage with one more redirection.
    pub open spec fn with_redirect(self, r: RedirectModel) -> Stage {
        Stage { redirects: self.redirects.push(r), ..self }
    }

    /// No redirection of the stage has an empty path.
    pub open spec fn paths_named(self) -> bool {
        forall|i: int| 0 <= i < self.redirects.len() ==> (#[trigger] self.redirects[i]).path.len() > 0
    }

    /// The built-in command that the stage calls, if it calls one.
    pub open spec fn builtin(self) -> Option<Builtin> {
        Builtin::named(self.name)
    }

    /// The name to search among the executables before the stage runs:
    /// the stage's own name unless it is built in, and the first argument
    /// of `type` unless that names a built-in command.
    pub open spec fn lookup(self) -> Option<Seq<char>> {
        match self.builtin() {
            None => Some(self.name),
            Some(Builtin::Type) => if self.args.len() > 0 && Builtin::named(self.args[0]) is None {
                Some(self.args[0])
            } else {
                None
            },
            Some(_) => None,
        }
    }

    /// The redirection that decides where the stage's output goes.
    pub open spec fn output_redirect(self) -> Option<int> {
        effective_redirect(self.redirects, false, self.redirects.len() as int)
    }

    /// The redirection that decides where the stage's errors go.
    pub open spec fn error_redirect(self) -> Option<int> {
        effective_redirect(self.redirects, true, self.redirects.len() as int)
    }
}

/// Adding a redirection with a path keeps the rule that no redirection of
/// a stage has an empty path; adding a word does not touch it.
pub proof fn lemma_paths_stay_named(stage: Stage, arg: Seq<char>, r: RedirectModel)
    requires
        stage.paths_named(),
    ensures
        Stage::empty().paths_named(),
        stage.with_arg(arg).paths_named(),
        r.path.len() > 0 ==> stage.with_redirect(r).paths_named(),
{
    if r.path.len() > 0 {
        let after = stage.with_redirect(r);
        assert forall|i: int| 0 <= i < after.redirects.len() implies (
        #[trigger] after.redirects[i]).path.len() > 0 by {
            if i < stage.redirects.len() {
                assert(after.redirects[i] == stage.redirects[i]);
            }
        }
    }
}

/// What running a stage came to.
#[derive(Debug, Clone, PartialEq, Eq)]
pub enum Execution {
    /// A built-in command ran, and this is left to do.
    Ran(Outcome),
    /// The stage is a process to spawn from the executable at this path.
    Spawn(String),
    /// No executable of the stage's name was found; this was reported.
    NotFound,
}

/// An execution over character sequences.
pub enum ExecutionModel {
    Ran(OutcomeModel),
    Spawn(Seq<char>),
    NotFound,
}

impl View for Execution {
    type V = ExecutionModel;

    open spec fn view(&self) -> ExecutionModel {
        match *self {
            Execution::Ran(outcome) => ExecutionModel::Ran(outcome@),
            Execution::Spawn(path) => ExecutionModel::Spawn(path@),
            Execution::NotFound => ExecutionModel::NotFound,
        }
    }
}

/// One stage of a pipeline.
pub struct Command {
    name: String,
    args: Vec<String>,
    redirects: Vec<Redirect>,
}

impl View for Command {
    type V = Stage;

    closed spec fn view(&self) -> Stage {
        Stage { name: self.name@, args: texts(self.args@), redirects: redirect_views(self.redirects@) }
    }
}

impl Command {
    /// An empty stage.
    pub fn new() -> (c: Command)
        ensures
            c@ == Stage::empty(),
    {
        let c = Command { name: String::new(), args: Vec::new(), redirects: Vec::new() };
        assert(texts(c.args@) =~= Seq::<Seq<char>>::empty());
        assert(redirect_views(c.redirects@) =~= Seq::<RedirectModel>::empty());
        c
    }

    /// Adds a word: the first word becomes the name, the others arguments.
    pub fn push_arg(&mut self, current_arg: &str)
        ensures
            final(self)@ == old(self)@.with_arg(current_arg@),
    {
        if self.name.as_str().is_empty() {
            self.name = current_arg.to_owned();
        } else {
            let arg = current_arg.to_owned();
            proof {
                lemma_texts_push(self.args@, arg);
            }
            self.args.push(arg);
        }
    }

    /// Adds a redirection of the given stream. A redirection without a path
    /// is refused and leaves the stage as it was.
    pub fn add_redirect(&mut self, type_: RedirectType, path: String, append: bool) -> (r: Result<
        (),
        ParseError,
    >)
        ensures
            path@.len() > 0 ==> r is Ok && final(self)@ == old(self)@.with_redirect(
                RedirectModel { type_, path: path@, append },
            ),
            path@.len() == 0 ==> r == Err::<(), ParseError>(ParseError::MissingRedirectTarget)
                && final(self)@ == old(self)@,
    {
        if path.as_str().is_empty() {
            return Err(ParseError::MissingRedirectTarget);
        }
        let redirect = Redirect { type_, path, append };
        proof {
            assert(redirect_views(self.redirects@.push(redirect)) =~= redirect_views(
                self.redirects@,
            ).push(redirect@));
        }
        self.redirects.push(redirect);
        Ok(())
    }

    /// Sends the stage's output to the file at `path`.
    pub fn set_output(&mut self, path: String, append: bool) -> (r: Result<(), ParseError>)
        ensures
            path@.len() > 0 ==> r is Ok && final(self)@ == old(self)@.with_redirect(
                RedirectModel { type_: RedirectType::Stdout, path: path@, append },
            ),
            path@.len() == 0 ==> r == Err::<(), ParseError>(ParseError::MissingRedirectTarget)
                && final(self)@ == old(self)@,
    {
        self.add_redirect(RedirectType::Stdout, path, append)
    }

    /// Sends the stage's errors to the file at `path`.
    pub fn set_err(&mut self, path: String, append: bool) -> (r: Result<(), ParseError>)
        ensures
            path@.len() > 0 ==> r is Ok && final(self)@ == old(self)@.with_redirect(
                RedirectModel { type_: RedirectType::Stderr, path: path@, append },
            ),
            path@.len() == 0 ==> r == Err::<(), ParseError>(ParseError::MissingRedirectTarget)
                && final(self)@ == old(self)@,
    {
        self.add_redirect(RedirectType::Stderr, path, append)
    }

    /// Whether the stage has no name yet.
    pub fn is_empty(&self) -> (b: bool)
        ensures
            b == (self@.name.len() == 0),
    {
        self.name.as_str().is_empty()
    }

    /// Whether the stage calls a built-in command: its name is exactly that
    /// of one.
    pub fn is_builtin(&self) -> (b: bool)
        ensures
            b == self@.builtin().is_some(),
    {
        Builtin::from_name(self.name.as_str()).is_some()
    }

    /// The built-in command that the stage calls, if it calls one.
    pub fn builtin(&self) -> (b: Option<Builtin>)
        ensures
            b == self@.builtin(),
    {
        Builtin::from_name(self.name.as_str())
    }

    /// The stage's name.
    pub fn name(&self) -> (s: &str)
        ensures
            s@ == self@.name,
    {
        self.name.as_str()
    }

    /// The stage's arguments.
    pub fn args(&self) -> (v: &Vec<String>)
        ensures
            texts(v@) == self@.args,
    {
        &self.args
    }

    /// The stage's redirections, in the order they were given.
    pub fn redirects(&self) -> (v: &Vec<Redirect>)
        ensures
            redirect_views(v@) == self@.redirects,
    {
        &self.redirects
    }

    /// The name to search among the executables before the stage runs, if
    /// it needs one.
    pub fn lookup_name(&self) -> (r: Option<String>)
        ensures
            text_of(r) == self@.lookup(),
    {
        match Builtin::from_name(self.name.as_str()) {
            None => Some(self.name.clone()),
            Some(Builtin::Type) => {
                if self.args.len() > 0 {
                    assert(texts(self.args@)[0] == self.args@[0]@);
                    if Builtin::from_name(self.args[0].as_str()).is_none() {
                        return Some(self.args[0].clone());
                    }
                }
                None
            },
            Some(_) => None,
        }
    }

    /// Runs the stage with its output going to `out` and its errors to
    /// `err`. `home` is the home directory where one is known; `found` is
    /// the path that the search for `lookup_name` gave.
    ///
    /// A built-in command runs at once, and what it leaves to do is
    /// returned. Any other stage is a process: with an executable found it
    /// is left to spawn; without one this is reported to `err`.
    pub fn execute_to_output(
        &self,
        out: &mut String,
        err: &mut String,
        store: &mut History,
        home: Option<String>,
        found: Option<String>,
    ) -> (r: Execution)
        ensures
            match self@.builtin() {
                Some(b) => {
                    let effect = builtin_effect(
                        b,
                        self@.args,
                        old(store)@.entries,
                        text_of(home),
                        text_of(found),
                    );
                    &&& r@ == ExecutionModel::Ran(effect.outcome)
                    &&& final(out)@ == old(out)@ + effect.out
                    &&& final(err)@ == old(err)@ + effect.err
                    &&& final(store)@.boundary == old(store)@.boundary
                    &&& final(store)@.entries == if effect.clears {
                        Seq::<Seq<char>>::empty()
                    } else {
                        old(store)@.entries
                    }
                },
                None => {
                    &&& final(store)@ == old(store)@
                    &&& final(out)@ == old(out)@
                    &&& match found {
                        Some(path) => r@ == ExecutionModel::Spawn(path@) && final(err)@ == old(err)@,
                        None => r@ == ExecutionModel::NotFound && final(err)@ == old(err)@ + (
                        self@.name + ": command not found\n"@),
                    }
                },
            },
    {
        match Builtin::from_name(self.name.as_str()) {
            Some(b) => Execution::Ran(run(b, &self.args, store, home, found, out, err)),
            None => match found {
                Some(path) => Execution::Spawn(path),
                None => {
                    let ghost before = err@;
                    push_text(err, self.name.as_str());
                    push_text(err, ": command not found\n");
                    assert(err@ =~= before + (self@.name + ": command not found\n"@));
                    Execution::NotFound
                },
            },
        }
    }

    fn last_redirect(&self, to_err: bool) -> (r: Option<usize>)
        ensures
            match r {
                Some(k) => effective_redirect(
                    self@.redirects,
                    to_err,
                    self@.redirects.len() as int,
                ) == Some(k as int),
                None => effective_redirect(self@.redirects, to_err, self@.redirects.len() as int)
                    is None,
            },
    {
        let mut n: usize = self.redirects.len();
        let ghost rs = redirect_views(self.redirects@);
        while n > 0
            invariant
                n <= self.redirects@.len(),
                rs == redirect_views(self.redirects@),
                effective_redirect(rs, to_err, rs.len() as int) == effective_redirect(
                    rs,
                    to_err,
                    n as int,
                ),
            decreases n,
        {
            let kind = self.redirects[n - 1].type_;
            assert(rs[n - 1].type_ == kind);
            let hit = match kind {
                RedirectType::Both => true,
                RedirectType::Stderr => to_err,
                RedirectType::Stdout => !to_err,
            };
            if hit {
                return Some(n - 1);
            }
            n -= 1;
        }
        None
    }

    /// The position of the redirection that decides where the stage's
    /// output goes: the last one of the output stream or of both streams.
    pub fn output_redirect(&self) -> (r: Option<usize>)
        ensures
            match r {
                Some(k) => self@.output_redirect() == Some(k as int),
                None => self@.output_redirect() is None,
            },
    {
        self.last_redirect(false)
    }

    /// The position of the redirection that decides where the stage's
    /// errors go: the last one of the error stream or of both streams.
    pub fn error_redirect(&self) -> (r: Option<usize>)
        ensures
            match r {
                Some(k) => self@.error_redirect() == Some(k as int),
                None => self@.error_redirect() is None,
            },
    {
        self.last_redirect(true)
    }
}

} // verus!
