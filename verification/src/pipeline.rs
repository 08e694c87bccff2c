//! Pipelines: the stages built from the tokens of a line, and the plan of
//! how the streams of each stage are wired.

use vstd::prelude::*;
use crate::command::{lemma_paths_stay_named, Builtin, Command, RedirectModel, Stage};
use crate::text::is_blank;
use crate::token::{
    lemma_blank_line_has_no_token, tokenize, tokenize_spec, token_views, ParseError, Token,
    TokenModel,
};

verus! {

/// The models of a sequence of stages.
pub open spec fn stage_views(v: Seq<Command>) -> Seq<Stage> {
    v.map_values(|c: Command| c@)
}

/// The stages that the tokens from `i` on give, after the finished stages
/// `done` and with the stage `cur` being built.
///
/// A word goes to the stage being built; a redirection attaches to it, and
/// must name a file; a pipe finishes it, and it must have a name by then. At
/// the end the stage being built is the last one. Without a name it is an
/// error if it follows a pipe or holds a redirection, and there is no stage
/// at all if there was no token.
pub open spec fn build_from(tokens: Seq<TokenModel>, i: int, cur: Stage, done: Seq<Stage>) -> Result<
    Seq<Stage>,
    ParseError,
>
    decreases tokens.len() - i,
{
    if i < 0 || i >= tokens.len() {
        if cur.name.len() > 0 {
            Ok(done.push(cur))
        } else if done.len() > 0 || cur.redirects.len() > 0 {
            Err(ParseError::EmptyCommand)
        } else {
            Ok(done)
        }
    } else {
        match tokens[i] {
            TokenModel::Arg(text) => build_from(tokens, i + 1, cur.with_arg(text), done),
            TokenModel::Pipe => if cur.name.len() == 0 {
                Err(ParseError::EmptyCommand)
            } else {
                build_from(tokens, i + 1, Stage::empty(), done.push(cur))
            },
            TokenModel::Redirect { type_, path, append } => if path.len() == 0 {
                Err(ParseError::MissingRedirectTarget)
            } else {
                build_from(
                    tokens,
                    i + 1,
                    cur.with_redirect(RedirectModel { type_, path, append }),
                    done,
                )
            },
        }
    }
}

/// The stages that a sequence of tokens gives.
pub open spec fn build_spec(tokens: Seq<TokenModel>) -> Result<Seq<Stage>, ParseError> {
    build_from(tokens, 0, Stage::empty(), Seq::empty())
}

/// The stages that an input line gives.
pub open spec fn pipeline_spec(line: Seq<char>) -> Result<Seq<Stage>, ParseError> {
    match tokenize_spec(line) {
        Err(e) => Err(e),
        Ok(tokens) => build_spec(tokens),
    }
}

/// Where a stage reads from.
#[derive(Debug, Clone, Copy, PartialEq, Eq)]
pub enum Input {
    /// The shell's own standard input.
    Inherited,
    /// The pipe that the stage before writes to.
    Piped,
    /// Nothing: the stage before writes elsewhere.
    Empty,
    /// The stage is built in and reads no input.
    Unused,
}

/// Where a stage's output goes.
#[derive(Debug, Clone, Copy, PartialEq, Eq)]
pub enum Output {
    /// The shell's own standard output.
    Inherited,
    /// The file of the stage's redirection at this position.
    File(usize),
    /// A pipe that the next stage reads.
    Piped,
    /// A pipe whose reading end is closed at once: the next stage is built
    /// in and reads nothing.
    Dropped,
    /// Nowhere: a built-in command before another one.
    Discarded,
}

/// Where a stage's errors go.
#[derive(Debug, Clone, Copy, PartialEq, Eq)]
pub enum ErrorOutput {
    /// The shell's own standard error.
    Inherited,
    /// The file of the stage's redirection at this position.
    File(usize),
}

/// How one stage of a pipeline runs.
#[derive(Debug, Clone, Copy, PartialEq, Eq)]
pub struct StagePlan {
    /// The built-in command to run, or none for a process to spawn.
    pub builtin: Option<Builtin>,
    pub input: Input,
    pub output: Output,
    pub errors: ErrorOutput,
    /// The stage is built in and feeds a process: it runs after that
    /// process was spawned, and writes from a thread of its own.
    pub detached: bool,
}

/// Where the output of stage `i` goes. A redirection of the output decides
/// first; the last stage writes to the shell's output; a process writes to
/// a pipe, which a built-in command after it drops; a built-in command
/// feeds a process after it and is discarded before another built-in.
pub open spec fn output_of(stages: Seq<Stage>, i: int) -> Output {
    let stage = stages[i];
    match stage.output_redirect() {
        Some(k) => Output::File(k as usize),
        None => if i + 1 >= stages.len() {
            Output::Inherited
        } else if stages[i + 1].builtin() is None {
            Output::Piped
        } else if stage.builtin() is None {
            Output::Dropped
        } else {
            Output::Discarded
        },
    }
}

/// Where stage `i` reads from. A built-in command reads nothing; the first
/// process reads the shell's input; a later one reads the pipe from the
/// stage before, or nothing where that stage writes elsewhere.
pub open spec fn input_of(stages: Seq<Stage>, i: int) -> Input {
    if stages[i].builtin() is Some {
        Input::Unused
    } else if i == 0 {
        Input::Inherited
    } else if output_of(stages, i - 1) is Piped {
        Input::Piped
    } else {
        Input::Empty
    }
}

/// Where the errors of stage `i` go.
pub open spec fn errors_of(stages: Seq<Stage>, i: int) -> ErrorOutput {
    match stages[i].error_redirect() {
        Some(k) => ErrorOutput::File(k as usize),
        None => ErrorOutput::Inherited,
    }
}

/// How stage `i` runs.
pub open spec fn plan_of(stages: Seq<Stage>, i: int) -> StagePlan {
    StagePlan {
        builtin: stages[i].builtin(),
        input: input_of(stages, i),
        output: output_of(stages, i),
        errors: errors_of(stages, i),
        detached: stages[i].builtin() is Some && output_of(stages, i) is Piped,
    }
}

/// The stages of one input line, in order.
pub struct Pipeline {
    commands: Vec<Command>,
}

impl View for Pipeline {
    type V = Seq<Stage>;

    closed spec fn view(&self) -> Seq<Stage> {
        stage_views(self.commands@)
    }
}

impl Pipeline {
    /// Builds the pipeline of an input line: its tokens, grouped into
    /// stages.
    pub fn new(input: &str) -> (r: Result<Pipeline, ParseError>)
        ensures
            match (r, pipeline_spec(input@)) {
                (Ok(p), Ok(stages)) => p@ == stages,
                (Err(e), Err(f)) => e == f,
                _ => false,
            },
    {
        match tokenize(input) {
            Err(e) => Err(e),
            Ok(tokens) => Pipeline::parse_tokens(tokens),
        }
    }

    /// Groups tokens into stages. Words and redirections go to the stage
    /// being built, a pipe starts the next one. A pipe after a stage without
    /// a name, a last stage without a name that follows a pipe or holds a
    /// redirection, and a redirection without a path are refused. No token
    /// gives no stage.
    pub fn parse_tokens(tokens: Vec<Token>) -> (r: Result<Pipeline, ParseError>)
        ensures
            match (r, build_spec(token_views(tokens@))) {
                (Ok(p), Ok(stages)) => p@ == stages,
                (Err(e), Err(f)) => e == f,
                _ => false,
            },
    {
        let mut commands: Vec<Command> = Vec::new();
        let mut cmd = Command::new();
        let ghost models = token_views(tokens@);
        let mut i: usize = 0;
        assert(stage_views(commands@) =~= Seq::<Stage>::empty());
        while i < tokens.len()
            invariant
                0 <= i <= tokens.len(),
                models == token_views(tokens@),
                build_from(models, i as int, cmd@, stage_views(commands@)) == build_spec(models),
            decreases tokens.len() - i,
        {
            assert(models[i as int] == tokens@[i as int]@);
            match &tokens[i] {
                Token::Arg(arg) => {
                    cmd.push_arg(arg.as_str());
                },
                Token::Pipe => {
                    if cmd.is_empty() {
                        return Err(ParseError::EmptyCommand);
                    }
                    assert(stage_views(commands@.push(cmd)) =~= stage_views(commands@).push(cmd@));
                    commands.push(cmd);
                    cmd = Command::new();
                },
                Token::Redirect { type_, path, append } => {
                    match cmd.add_redirect(*type_, path.clone(), *append) {
                        Err(e) => {
                            return Err(e);
                        },
                        Ok(_) => {},
                    }
                },
            }
            i += 1;
        }
        if !cmd.is_empty() {
            assert(stage_views(commands@.push(cmd)) =~= stage_views(commands@).push(cmd@));
            commands.push(cmd);
        } else if commands.len() > 0 || cmd.redirects().len() > 0 {
            return Err(ParseError::EmptyCommand);
        }
        Ok(Pipeline { commands })
    }

    /// The number of stages.
    pub fn len(&self) -> (n: usize)
        ensures
            n == self@.len(),
    {
        self.commands.len()
    }

    /// The stage at position `i`.
    pub fn stage(&self, i: usize) -> (c: &Command)
        requires
            i < self@.len(),
        ensures
            c@ == self@[i as int],
    {
        &self.commands[i]
    }

    fn output_plan(&self, i: usize) -> (r: Output)
        requires
            i < self@.len(),
        ensures
            r == output_of(self@, i as int),
    {
        let last = self.commands.len() - 1;
        match self.commands[i].output_redirect() {
            Some(k) => Output::File(k),
            None => if i >= last {
                Output::Inherited
            } else if !self.commands[i + 1].is_builtin() {
                Output::Piped
            } else if !self.commands[i].is_builtin() {
                Output::Dropped
            } else {
                Output::Discarded
            },
        }
    }

    /// How each stage runs: whether it is built in, and where its input,
    /// output and errors are wired.
    pub fn plan(&self) -> (plans: Vec<StagePlan>)
        ensures
            plans@.len() == self@.len(),
            forall|i: int| 0 <= i < self@.len() ==> plans@[i] == plan_of(self@, i),
    {
        let mut plans: Vec<StagePlan> = Vec::new();
        let mut i: usize = 0;
        while i < self.commands.len()
            invariant
                0 <= i <= self.commands@.len(),
                plans@.len() == i,
                forall|j: int| 0 <= j < i ==> plans@[j] == plan_of(self@, j),
            decreases self.commands@.len() - i,
        {
            let builtin = self.commands[i].builtin();
            let output = self.output_plan(i);
            let input = if builtin.is_some() {
                Input::Unused
            } else if i == 0 {
                Input::Inherited
            } else {
                match self.output_plan(i - 1) {
                    Output::Piped => Input::Piped,
                    _ => Input::Empty,
                }
            };
            let errors = match self.commands[i].error_redirect() {
                Some(k) => ErrorOutput::File(k),
                None => ErrorOutput::Inherited,
            };
            let piped = match output {
                Output::Piped => true,
                _ => false,
            };
            let detached = builtin.is_some() && piped;
            plans.push(StagePlan { builtin, input, output, errors, detached });
            i += 1;
        }
        plans
    }
}

/// Every stage that a sequence of tokens gives has a name, and none of its
/// redirections has an empty path.
pub proof fn lemma_built_stages_are_named(
    tokens: Seq<TokenModel>,
    i: int,
    cur: Stage,
    done: Seq<Stage>,
)
    requires
        0 <= i <= tokens.len(),
        cur.paths_named(),
        forall|k: int| 0 <= k < done.len() ==> (#[trigger] done[k]).name.len() > 0 && done[k].paths_named(),
    ensures
        match build_from(tokens, i, cur, done) {
            Ok(stages) => forall|k: int|
                0 <= k < stages.len() ==> (#[trigger] stages[k]).name.len() > 0
                    && stages[k].paths_named(),
            Err(_) => true,
        },
    decreases tokens.len() - i,
{
    if i < tokens.len() {
        match tokens[i] {
            TokenModel::Arg(text) => {
                lemma_built_stages_are_named(tokens, i + 1, cur.with_arg(text), done);
            },
            TokenModel::Pipe => {
                if cur.name.len() > 0 {
                    lemma_built_stages_are_named(tokens, i + 1, Stage::empty(), done.push(cur));
                }
            },
            TokenModel::Redirect { type_, path, append } => {
                if path.len() > 0 {
                    let redirect = RedirectModel { type_, path, append };
                    lemma_paths_stay_named(cur, Seq::empty(), redirect);
                    lemma_built_stages_are_named(tokens, i + 1, cur.with_redirect(redirect), done);
                }
            },
        }
    }
}

/// A line of blanks alone, or an empty line, has no stage.
pub proof fn lemma_blank_line_has_no_stage(line: Seq<char>)
    requires
        forall|k: int| 0 <= k < line.len() ==> is_blank(#[trigger] line[k]),
    ensures
        pipeline_spec(line) == Ok::<Seq<Stage>, ParseError>(Seq::empty()),
{
    lemma_blank_line_has_no_token(line);
}

/// Every stage of a line has a name, and none of its redirections has an
/// empty path.
pub proof fn lemma_stages_of_a_line_are_named(line: Seq<char>)
    ensures
        match pipeline_spec(line) {
            Ok(stages) => forall|k: int|
                0 <= k < stages.len() ==> (#[trigger] stages[k]).name.len() > 0
                    && stages[k].paths_named(),
            Err(_) => true,
        },
{
    match tokenize_spec(line) {
        Ok(tokens) => {
            lemma_built_stages_are_named(tokens, 0, Stage::empty(), Seq::empty());
        },
        Err(_) => {},
    }
}

/// Each pipe has one writer and one reader: a stage writes to a pipe that
/// is read exactly where the next stage reads from one. The first stage
/// reads from no pipe and the last one writes to none.
pub proof fn lemma_pipes_are_paired(stages: Seq<Stage>, i: int)
    requires
        0 <= i < stages.len(),
    ensures
        i + 1 < stages.len() ==> (plan_of(stages, i).output is Piped <==> plan_of(
            stages,
            i + 1,
        ).input is Piped),
        i == 0 ==> !(plan_of(stages, i).input is Piped),
        i + 1 == stages.len() ==> plan_of(stages, i).output is Inherited || plan_of(
            stages,
            i,
        ).output is File,
{
}

/// A built-in command before another built-in command, without a
/// redirection of its output, writes nowhere and waits for nothing: its
/// output is discarded and it does not run detached.
pub proof fn lemma_builtin_before_builtin(stages: Seq<Stage>, i: int)
    requires
        0 <= i,
        i + 1 < stages.len(),
        stages[i].builtin() is Some,
        stages[i + 1].builtin() is Some,
        stages[i].output_redirect() is None,
    ensures
        plan_of(stages, i).output == Output::Discarded,
        !plan_of(stages, i).detached,
        plan_of(stages, i + 1).input == Input::Unused,
{
}

} // verus!
