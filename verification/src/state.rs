//! The line editor's state machine: the input buffer, the cursor, the walk
//! through the history and the completion of the word under the cursor.
//! Each key changes the state and says what the terminal has to show.

use vstd::prelude::*;
use crate::history::{History, HistoryModel};
use crate::text::{chars_of, clone_texts, copy_range, same_text, string_of, string_of_range, texts, white_space};

verus! {

/// A key, as the terminal reports it.
#[derive(Debug, Clone, Copy, PartialEq, Eq)]
pub enum Key {
    /// A character; a newline is Enter, a tab is Tab.
    Char(char),
    /// A character typed with the control key.
    Ctrl(char),
    Backspace,
    Left,
    Right,
    Up,
    Down,
    /// Any key that the editor does not react to.
    Other,
}

/// What the terminal has to show after a key.
#[derive(Debug, Clone, Copy, PartialEq, Eq)]
pub enum Action {
    /// Nothing changes on screen.
    Nothing,
    /// Ring the bell.
    Bell,
    /// Move the cursor one column to the left.
    Left,
    /// Move the cursor one column to the right.
    Right,
    /// Erase the column left of the cursor and move there.
    Erase,
    /// Write the buffer from the character just inserted to its end, then
    /// move the cursor `back` columns to the left.
    Insert { back: usize },
    /// Clear the line and write the prompt and the buffer again.
    Redraw,
    /// Write the matches on a line of their own, then the prompt and the
    /// buffer again.
    List,
}

/// The matches remembered for a prefix, for the next Tab.
#[derive(Debug, Clone, PartialEq, Eq)]
pub struct Completion {
    pub prefix: String,
    pub matches: Vec<String>,
}

impl Completion {
    /// The matches `matches` of the prefix `prefix`.
    pub fn new(prefix: String, matches: Vec<String>) -> (c: Completion)
        ensures
            c.prefix == prefix,
            c.matches == matches,
    {
        Completion { prefix, matches }
    }
}

/// What Tab needs to know before it can complete.
#[derive(Debug, Clone, PartialEq, Eq)]
pub enum Query {
    /// The matches are known already.
    Known(Vec<String>),
    /// The entries of the directory `dir` whose names begin with `stem`.
    Files { dir: String, stem: String },
    /// The commands whose names begin with `prefix`.
    Commands { prefix: String },
}

/// A query over character sequences.
pub enum QueryModel {
    Known(Seq<Seq<char>>),
    Files { dir: Seq<char>, stem: Seq<char> },
    Commands { prefix: Seq<char> },
}

impl View for Query {
    type V = QueryModel;

    open spec fn view(&self) -> QueryModel {
        match *self {
            Query::Known(matches) => QueryModel::Known(texts(matches@)),
            Query::Files { dir, stem } => QueryModel::Files { dir: dir@, stem: stem@ },
            Query::Commands { prefix } => QueryModel::Commands { prefix: prefix@ },
        }
    }
}

/// What a key leads to.
#[derive(Debug, Clone, PartialEq, Eq)]
pub enum Step {
    /// The editor goes on reading keys, after the terminal showed this.
    Show(Action),
    /// Enter: the line was entered and recorded. An empty line is not run.
    Submit(String),
    /// Control-C: the line was given up.
    Cancel,
    /// Control-D on an empty line: the input has ended.
    Exit,
    /// Tab: the matches that this query asks for are to be handed to
    /// `handle_tab`.
    Complete(Query),
    /// Control-D on a line that is not empty: the commands that begin
    /// with this prefix are to be handed to `show_completions`.
    ShowCommands(String),
}

/// A step over character sequences.
pub enum StepModel {
    Show(Action),
    Submit(Seq<char>),
    Cancel,
    Exit,
    Complete(QueryModel),
    ShowCommands(Seq<char>),
}

impl View for Step {
    type V = StepModel;

    open spec fn view(&self) -> StepModel {
        match *self {
            Step::Show(action) => StepModel::Show(action),
            Step::Submit(line) => StepModel::Submit(line@),
            Step::Cancel => StepModel::Cancel,
            Step::Exit => StepModel::Exit,
            Step::Complete(query) => StepModel::Complete(query@),
            Step::ShowCommands(prefix) => StepModel::ShowCommands(prefix@),
        }
    }
}

/// The position after the last of the first `n` characters of `s` that is
/// white space, or 0 if none is.
pub open spec fn token_start(s: Seq<char>, n: int) -> int
    decreases n,
{
    if n <= 0 || n > s.len() {
        0
    } else if white_space(s[n - 1]) {
        n
    } else {
        token_start(s, n - 1)
    }
}

/// The position after the last `c` in `s[lo..n]`, or `lo` if there is none.
pub open spec fn after_last(s: Seq<char>, lo: int, n: int, c: char) -> int
    decreases n,
{
    if n <= lo || n > s.len() || lo < 0 {
        lo
    } else if s[n - 1] == c {
        n
    } else {
        after_last(s, lo, n - 1, c)
    }
}

/// Where a completion is inserted: after the last white space before the
/// cursor and, in a path, after its last `/`.
pub open spec fn insertion_start(s: Seq<char>, cursor: int) -> int {
    after_last(s, token_start(s, cursor), cursor, '/')
}

/// The number of characters that `a` and `b` have in common at their
/// beginning, counted from position `i`.
pub open spec fn common_from(a: Seq<char>, b: Seq<char>, i: int) -> nat
    decreases a.len() - i,
{
    if 0 <= i < a.len() && i < b.len() && a[i] == b[i] {
        1 + common_from(a, b, i + 1)
    } else {
        0
    }
}

/// The longest common prefix of the first and the last of `strings`; of a
/// sorted sequence it is the longest common prefix of all.
pub open spec fn common_prefix(strings: Seq<Seq<char>>) -> Seq<char> {
    if strings.len() == 0 {
        Seq::empty()
    } else {
        strings[0].subrange(0, common_from(strings[0], strings.last(), 0) as int)
    }
}

/// The text `"."` or `".."`.
pub open spec fn is_dots(s: Seq<char>) -> bool {
    s == seq!['.'] || s == seq!['.', '.']
}

/// The prefix and the matches that a Tab left for the next one.
pub struct Remembered {
    pub prefix: Seq<char>,
    pub matches: Seq<Seq<char>>,
}

/// What the line editor holds.
pub struct EditorModel {
    /// The input buffer.
    pub input: Seq<char>,
    /// The cursor, a position in the buffer.
    pub cursor: nat,
    /// The entry of the history that is shown; the number of entries while
    /// the line being written is shown.
    pub history_index: nat,
    /// The line being written, kept while the history is walked.
    pub saved: Seq<char>,
    /// The prefix and the matches of the last Tab that found several.
    pub pending: Option<Remembered>,
}

/// A model of the editor, one of the history, and what a key led to.
pub struct Turn {
    pub editor: EditorModel,
    pub history: HistoryModel,
    pub step: StepModel,
}

impl EditorModel {
    /// The cursor lies within the buffer.
    pub open spec fn wf(self) -> bool {
        self.cursor <= self.input.len()
    }

    /// The editor at the start: an empty line, shown after the entries of
    /// the history.
    pub open spec fn fresh(history_len: nat) -> EditorModel {
        EditorModel {
            input: Seq::empty(),
            cursor: 0,
            history_index: history_len,
            saved: Seq::empty(),
            pending: None,
        }
    }

    /// The buffer up to the cursor.
    pub open spec fn prefix(self) -> Seq<char> {
        self.input.subrange(0, self.cursor as int)
    }

    /// With `c` inserted at the cursor, and the cursor after it.
    pub open spec fn inserted(self, c: char) -> EditorModel {
        EditorModel { input: self.input.insert(self.cursor as int, c), cursor: self.cursor + 1, ..self }
    }

    /// Without the character left of the cursor, if there is one.
    pub open spec fn erased(self) -> EditorModel {
        if self.cursor > 0 {
            EditorModel {
                input: self.input.remove(self.cursor - 1),
                cursor: (self.cursor - 1) as nat,
                ..self
            }
        } else {
            self
        }
    }

    /// With the cursor one to the left, unless it is at the start.
    pub open spec fn moved_left(self) -> EditorModel {
        if self.cursor > 0 {
            EditorModel { cursor: (self.cursor - 1) as nat, ..self }
        } else {
            self
        }
    }

    /// With the cursor one to the right, unless it is at the end.
    pub open spec fn moved_right(self) -> EditorModel {
        if self.cursor < self.input.len() {
            EditorModel { cursor: self.cursor + 1, ..self }
        } else {
            self
        }
    }

    /// With an empty buffer.
    pub open spec fn reset(self) -> EditorModel {
        EditorModel { input: Seq::empty(), cursor: 0, ..self }
    }

    /// Showing `line`, with the cursor at its end.
    pub open spec fn showing(self, line: Seq<char>, index: nat) -> EditorModel {
        EditorModel { input: line, cursor: line.len(), history_index: index, ..self }
    }

    /// The entry that is shown, no later than the line being written.
    pub open spec fn place(self, h: HistoryModel) -> nat {
        if self.history_index > h.entries.len() {
            h.entries.len()
        } else {
            self.history_index
        }
    }

    /// Whether Up can go to an older entry.
    pub open spec fn can_go_back(self, h: HistoryModel) -> bool {
        self.place(h) > 0
    }

    /// The editor after Up: the buffer is kept in the place that is left,
    /// and the entry before is shown.
    pub open spec fn previous(self, h: HistoryModel) -> EditorModel {
        let at = self.place(h);
        if !self.can_go_back(h) {
            self
        } else {
            let kept = if at == h.entries.len() {
                EditorModel { saved: self.input, ..self }
            } else {
                self
            };
            kept.showing(h.entries[at - 1], (at - 1) as nat)
        }
    }

    /// The history after Up: the buffer replaces the entry that is left.
    pub open spec fn previous_history(self, h: HistoryModel) -> HistoryModel {
        let at = self.place(h);
        if self.can_go_back(h) && at < h.entries.len() {
            h.replaced(at, self.input)
        } else {
            h
        }
    }

    /// Whether Down can go to a newer entry or to the line being written.
    pub open spec fn can_go_forward(self, h: HistoryModel) -> bool {
        self.place(h) < h.entries.len()
    }

    /// The history after Down: the buffer replaces the entry that is left.
    pub open spec fn next_history(self, h: HistoryModel) -> HistoryModel {
        if self.can_go_forward(h) {
            h.replaced(self.place(h), self.input)
        } else {
            h
        }
    }

    /// The editor after Down: the next entry is shown, or the line being
    /// written after the newest entry.
    pub open spec fn next(self, h: HistoryModel) -> EditorModel {
        let at = self.place(h);
        if !self.can_go_forward(h) {
            self
        } else if at + 1 == h.entries.len() {
            self.showing(self.saved, at + 1)
        } else {
            self.showing(h.entries[at as int + 1], at + 1)
        }
    }

    /// With `text` in place of the word part left of the cursor, and the
    /// cursor after it.
    pub open spec fn completed(self, text: Seq<char>) -> EditorModel {
        let start = insertion_start(self.input, self.cursor as int);
        EditorModel {
            input: self.input.subrange(0, start) + text + self.input.subrange(
                self.cursor as int,
                self.input.len() as int,
            ),
            cursor: (start + text.len()) as nat,
            ..self
        }
    }

    /// The word part left of the cursor that a completion replaces.
    pub open spec fn stem(self) -> Seq<char> {
        self.input.subrange(insertion_start(self.input, self.cursor as int), self.cursor as int)
    }

    /// What Tab asks for. Matches remembered for the same prefix are known;
    /// `.` and `..` complete to themselves with a `/`; a word with a `/` or
    /// after a space is a path, any other a command.
    pub open spec fn query(self) -> QueryModel {
        let prefix = self.prefix();
        let from = after_last(prefix, 0, prefix.len() as int, ' ');
        let token = prefix.subrange(from, prefix.len() as int);
        let cut = after_last(token, 0, token.len() as int, '/');
        if self.pending is Some && self.pending->0.prefix == prefix {
            QueryModel::Known(self.pending->0.matches)
        } else if is_dots(prefix) {
            QueryModel::Known(seq![prefix.push('/')])
        } else if cut > 0 || from > 0 {
            if is_dots(token) {
                QueryModel::Known(seq![token.push('/')])
            } else if cut > 0 {
                QueryModel::Files {
                    dir: token.subrange(0, cut),
                    stem: token.subrange(cut, token.len() as int),
                }
            } else {
                QueryModel::Files { dir: seq!['.'], stem: token }
            }
        } else {
            QueryModel::Commands { prefix: token }
        }
    }

    /// What Tab shows once the matches are known: the bell for none; a
    /// redraw after the single match went in, or after the buffer grew to
    /// what several matches share; the list of several matches at the
    /// second Tab, and the bell at the first.
    pub open spec fn tab_action(self, matches: Seq<Seq<char>>) -> Action {
        if matches.len() == 0 {
            Action::Bell
        } else if matches.len() == 1 {
            Action::Redraw
        } else if common_prefix(matches).len() > self.stem().len() {
            Action::Redraw
        } else if self.pending is Some && self.pending->0.prefix == self.prefix() {
            Action::List
        } else {
            Action::Bell
        }
    }

    /// The editor after Tab, once the matches are known: the single match
    /// goes in with a space after it; several matches extend the buffer to
    /// what they share, or are remembered for the next Tab.
    pub open spec fn tabbed(self, matches: Seq<Seq<char>>) -> EditorModel {
        if matches.len() == 0 {
            self
        } else if matches.len() == 1 {
            self.completed(matches[0].push(' '))
        } else if common_prefix(matches).len() > self.stem().len() {
            self.completed(common_prefix(matches))
        } else if self.pending is Some && self.pending->0.prefix == self.prefix() {
            self
        } else {
            EditorModel { pending: Some(Remembered { prefix: self.prefix(), matches }), ..self }
        }
    }

    /// The editor after a key that is not Tab, before what was remembered
    /// for Tab is dropped.
    pub open spec fn keyed(self, key: Key, h: HistoryModel) -> EditorModel {
        match key {
            Key::Char(c) => if c == '\n' {
                EditorModel { history_index: h.added(self.input).entries.len(), ..self.reset() }
            } else {
                self.inserted(c)
            },
            Key::Ctrl(c) => if c == 'c' {
                self.reset()
            } else {
                self
            },
            Key::Backspace => self.erased(),
            Key::Left => self.moved_left(),
            Key::Right => self.moved_right(),
            Key::Up => self.previous(h),
            Key::Down => self.next(h),
            Key::Other => self,
        }
    }

    /// What a key leads to.
    pub open spec fn step(self, key: Key, h: HistoryModel) -> StepModel {
        match key {
            Key::Char(c) => if c == '\n' {
                StepModel::Submit(self.input)
            } else if c == '\t' {
                StepModel::Complete(self.query())
            } else {
                StepModel::Show(Action::Insert { back: (self.input.len() - self.cursor) as usize })
            },
            Key::Ctrl(c) => if c == 'c' {
                StepModel::Cancel
            } else if c == 'd' {
                if self.input.len() == 0 {
                    StepModel::Exit
                } else {
                    StepModel::ShowCommands(self.prefix())
                }
            } else {
                StepModel::Show(Action::Nothing)
            },
            Key::Backspace => StepModel::Show(
                if self.cursor > 0 {
                    Action::Erase
                } else {
                    Action::Bell
                },
            ),
            Key::Left => StepModel::Show(
                if self.cursor > 0 {
                    Action::Left
                } else {
                    Action::Nothing
                },
            ),
            Key::Right => StepModel::Show(
                if self.cursor < self.input.len() {
                    Action::Right
                } else {
                    Action::Nothing
                },
            ),
            Key::Up => StepModel::Show(
                if self.can_go_back(h) {
                    Action::Redraw
                } else {
                    Action::Bell
                },
            ),
            Key::Down => StepModel::Show(
                if self.can_go_forward(h) {
                    Action::Redraw
                } else {
                    Action::Bell
                },
            ),
            Key::Other => StepModel::Show(Action::Nothing),
        }
    }

    /// The history after a key: Enter records the line, Up and Down keep
    /// the buffer in the entry that is left.
    pub open spec fn history_after(self, key: Key, h: HistoryModel) -> HistoryModel {
        match key {
            Key::Char(c) => if c == '\n' {
                h.added(self.input)
            } else {
                h
            },
            Key::Up => self.previous_history(h),
            Key::Down => self.next_history(h),
            _ => h,
        }
    }

    /// The editor, the history and the step after a key. Tab leaves the
    /// editor as it is until the matches are known; any other key drops
    /// what was remembered for Tab.
    pub open spec fn turn(self, key: Key, h: HistoryModel) -> Turn {
        Turn {
            editor: if key == Key::Char('\t') {
                self
            } else {
                EditorModel { pending: None, ..self.keyed(key, h) }
            },
            history: self.history_after(key, h),
            step: self.step(key, h),
        }
    }
}

/// The word under the cursor begins within the first `n` characters.
pub proof fn lemma_token_start_within(s: Seq<char>, n: int)
    requires
        0 <= n <= s.len(),
    ensures
        0 <= token_start(s, n) <= n,
    decreases n,
{
    if n > 0 && !white_space(s[n - 1]) {
        lemma_token_start_within(s, n - 1);
    }
}

/// The position after the last `c` in a range lies in that range.
pub proof fn lemma_after_last_within(s: Seq<char>, lo: int, n: int, c: char)
    requires
        0 <= lo <= n <= s.len(),
    ensures
        lo <= after_last(s, lo, n, c) <= n,
    decreases n,
{
    if n > lo && s[n - 1] != c {
        lemma_after_last_within(s, lo, n - 1, c);
    }
}

/// Every key keeps the cursor within the buffer and the place in the
/// history within its entries.
pub proof fn lemma_turn_keeps_bounds(m: EditorModel, key: Key, h: HistoryModel)
    requires
        m.wf(),
        m.history_index <= h.entries.len(),
    ensures
        m.turn(key, h).editor.wf(),
        m.turn(key, h).editor.history_index <= m.turn(key, h).history.entries.len(),
{
}

/// Up and then Down shows the buffer again as it was left: what was being
/// written, or the edits made to an older entry, are kept while the
/// history is walked.
pub proof fn lemma_up_then_down_restores(m: EditorModel, h: HistoryModel)
    requires
        m.can_go_back(h),
    ensures
        ({
            let up = m.previous(h);
            let kept = m.previous_history(h);
            &&& up.can_go_forward(kept)
            &&& up.next(kept).input == m.input
            &&& up.next(kept).cursor == m.input.len()
            &&& up.next(kept).history_index == m.place(h)
            &&& up.next_history(kept) == kept
        }),
{
    let up = m.previous(h);
    let kept = m.previous_history(h);
    assert(up.next_history(kept).entries =~= kept.entries);
}

/// Completion keeps the cursor within the buffer and does not move the
/// place in the history.
pub proof fn lemma_tab_keeps_bounds(m: EditorModel, matches: Seq<Seq<char>>)
    requires
        m.wf(),
    ensures
        m.tabbed(matches).wf(),
        m.tabbed(matches).history_index == m.history_index,
{
    lemma_token_start_within(m.input, m.cursor as int);
    lemma_after_last_within(m.input, token_start(m.input, m.cursor as int), m.cursor as int, '/');
}

/// The position after the last `c` in `v[lo..n]`, or `lo`.
fn find_after_last(v: &Vec<char>, lo: usize, n: usize, c: char) -> (r: usize)
    requires
        lo <= n <= v.len(),
    ensures
        r == after_last(v@, lo as int, n as int, c),
        lo <= r <= n,
{
    let mut k: usize = n;
    while k > lo
        invariant
            lo <= k <= n <= v.len(),
            after_last(v@, lo as int, n as int, c) == after_last(v@, lo as int, k as int, c),
        decreases k,
    {
        if v[k - 1] == c {
            return k;
        }
        k -= 1;
    }
    lo
}

/// The position after the last white space among the first `n` characters.
fn find_token_start(v: &Vec<char>, n: usize) -> (r: usize)
    requires
        n <= v.len(),
    ensures
        r == token_start(v@, n as int),
        r <= n,
{
    let mut k: usize = n;
    while k > 0
        invariant
            k <= n <= v.len(),
            token_start(v@, n as int) == token_start(v@, k as int),
        decreases k,
    {
        if v[k - 1].is_whitespace() {
            return k;
        }
        k -= 1;
    }
    0
}

/// Whether `v` is `.` or `..`.
fn dots(v: &Vec<char>) -> (b: bool)
    ensures
        b == is_dots(v@),
{
    if v.len() == 1 && v[0] == '.' {
        assert(v@ =~= seq!['.']);
        true
    } else if v.len() == 2 && v[0] == '.' && v[1] == '.' {
        assert(v@ =~= seq!['.', '.']);
        true
    } else {
        assert(!is_dots(v@)) by {
            let one = seq!['.'];
            let two = seq!['.', '.'];
            assert(one.len() == 1 && one[0] == '.');
            assert(two.len() == 2 && two[0] == '.' && two[1] == '.');
        }
        false
    }
}

/// `v` with `c` after it, as the only match of a query.
fn single_match(v: &Vec<char>, c: char) -> (q: Query)
    ensures
        q@ == QueryModel::Known(seq![v@.push(c)]),
{
    let mut text = copy_range(v, 0, v.len());
    assert(v@.subrange(0, v.len() as int) =~= v@);
    text.push(c);
    let mut matches: Vec<String> = Vec::new();
    matches.push(string_of(&text));
    assert(texts(matches@) =~= seq![v@.push(c)]);
    Query::Known(matches)
}

/// The longest common prefix of the first and the last of `strings`. Of a
/// sorted list it is what all of them begin with.
pub fn longest_common_prefix(strings: &Vec<String>) -> (r: String)
    ensures
        r@ == common_prefix(texts(strings@)),
{
    if strings.len() == 0 {
        return String::new();
    }
    let first = chars_of(strings[0].as_str());
    let last = chars_of(strings[strings.len() - 1].as_str());
    assert(texts(strings@)[0] == first@);
    assert(texts(strings@).last() == last@);
    let mut n: usize = 0;
    while n < first.len() && n < last.len() && first[n] == last[n]
        invariant
            n <= first.len(),
            n <= last.len(),
            n + common_from(first@, last@, n as int) == common_from(first@, last@, 0),
        decreases first.len() - n,
    {
        n += 1;
    }
    string_of_range(&first, 0, n)
}

/// The line editor.
pub struct Editor {
    input: Vec<char>,
    cursor_pos: usize,
    history_index: usize,
    last_input: Vec<char>,
    completion: Option<Completion>,
}

impl View for Editor {
    type V = EditorModel;

    closed spec fn view(&self) -> EditorModel {
        EditorModel {
            input: self.input@,
            cursor: self.cursor_pos as nat,
            history_index: self.history_index as nat,
            saved: self.last_input@,
            pending: match self.completion {
                Some(c) => Some(Remembered { prefix: c.prefix@, matches: texts(c.matches@) }),
                None => None,
            },
        }
    }
}

impl Editor {
    /// An editor with an empty line, placed after the `history_len` entries
    /// of the history.
    pub fn new(history_len: usize) -> (e: Editor)
        ensures
            e@ == EditorModel::fresh(history_len as nat),
            e@.wf(),
    {
        Editor {
            input: Vec::new(),
            cursor_pos: 0,
            history_index: history_len,
            last_input: Vec::new(),
            completion: None,
        }
    }

    /// The input buffer.
    pub fn input(&self) -> (v: &Vec<char>)
        ensures
            v@ == self@.input,
    {
        &self.input
    }

    /// The cursor's position in the buffer.
    pub fn cursor(&self) -> (n: usize)
        ensures
            n == self@.cursor,
    {
        self.cursor_pos
    }

    /// The buffer as a string.
    pub fn line(&self) -> (s: String)
        ensures
            s@ == self@.input,
    {
        string_of(&self.input)
    }

    /// Empties the buffer for the next line.
    pub fn reset_input(&mut self)
        ensures
            final(self)@ == old(self)@.reset(),
            final(self)@.wf(),
    {
        self.input = Vec::new();
        self.cursor_pos = 0;
    }

    /// A printable character: inserts it at the cursor.
    pub fn insert_char(&mut self, c: char) -> (action: Action)
        requires
            old(self)@.wf(),
        ensures
            final(self)@ == old(self)@.inserted(c),
            final(self)@.wf(),
            action == (Action::Insert { back: (old(self)@.input.len() - old(self)@.cursor) as usize }),
    {
        let back = self.input.len() - self.cursor_pos;
        self.input.insert(self.cursor_pos, c);
        self.cursor_pos = self.input.len() - back;
        Action::Insert { back }
    }

    /// Backspace: removes the character left of the cursor, or rings the
    /// bell at the start of the line.
    pub fn backspace(&mut self) -> (action: Action)
        requires
            old(self)@.wf(),
        ensures
            final(self)@ == old(self)@.erased(),
            final(self)@.wf(),
            action == if old(self)@.cursor > 0 {
                Action::Erase
            } else {
                Action::Bell
            },
    {
        if self.cursor_pos > 0 {
            self.input.remove(self.cursor_pos - 1);
            self.cursor_pos = self.cursor_pos - 1;
            Action::Erase
        } else {
            Action::Bell
        }
    }

    /// Left arrow: moves the cursor left, unless it is at the start.
    pub fn move_cursor_left(&mut self) -> (action: Action)
        requires
            old(self)@.wf(),
        ensures
            final(self)@ == old(self)@.moved_left(),
            final(self)@.wf(),
            action == if old(self)@.cursor > 0 {
                Action::Left
            } else {
                Action::Nothing
            },
    {
        if self.cursor_pos > 0 {
            self.cursor_pos = self.cursor_pos - 1;
            Action::Left
        } else {
            Action::Nothing
        }
    }

    /// Right arrow: moves the cursor right, unless it is at the end.
    pub fn move_cursor_right(&mut self) -> (action: Action)
        requires
            old(self)@.wf(),
        ensures
            final(self)@ == old(self)@.moved_right(),
            final(self)@.wf(),
            action == if old(self)@.cursor < old(self)@.input.len() {
                Action::Right
            } else {
                Action::Nothing
            },
    {
        if self.cursor_pos < self.input.len() {
            self.cursor_pos = self.cursor_pos + 1;
            Action::Right
        } else {
            Action::Nothing
        }
    }

    /// Enter: records the line in the history and places the editor after
    /// its newest entry. Returns the line.
    pub fn append_history(&mut self, history: &mut History) -> (line: String)
        ensures
            line@ == old(self)@.input,
            final(history)@ == old(history)@.added(old(self)@.input),
            final(self)@ == (EditorModel {
                history_index: final(history)@.entries.len(),
                ..old(self)@
            }),
    {
        let line = string_of(&self.input);
        history.add(line.clone());
        self.history_index = history.len();
        line
    }

    /// Up arrow: keeps the buffer in the place that is left and shows the
    /// entry before it, or rings the bell at the oldest entry.
    pub fn get_previous_command(&mut self, history: &mut History) -> (action: Action)
        ensures
            final(self)@ == old(self)@.previous(old(history)@),
            final(history)@ == old(self)@.previous_history(old(history)@),
            old(self)@.wf() ==> final(self)@.wf(),
            action == if old(self)@.can_go_back(old(history)@) {
                Action::Redraw
            } else {
                Action::Bell
            },
    {
        let len = history.len();
        let at = if self.history_index > len {
            len
        } else {
            self.history_index
        };
        if at == 0 {
            return Action::Bell;
        }
        if at == len {
            self.last_input = copy_range(&self.input, 0, self.input.len());
            assert(self.input@.subrange(0, self.input@.len() as int) =~= self.input@);
        } else {
            history.set(at, string_of(&self.input));
        }
        let entry = history.entry(at - 1);
        self.input = chars_of(entry.as_str());
        self.cursor_pos = self.input.len();
        self.history_index = at - 1;
        Action::Redraw
    }

    /// Down arrow: keeps the buffer in the entry that is left and shows
    /// the next one, or the line being written after the newest; rings the
    /// bell where nothing newer is left.
    pub fn get_next_command(&mut self, history: &mut History) -> (action: Action)
        ensures
            final(self)@ == old(self)@.next(old(history)@),
            final(history)@ == old(self)@.next_history(old(history)@),
            old(self)@.wf() ==> final(self)@.wf(),
            action == if old(self)@.can_go_forward(old(history)@) {
                Action::Redraw
            } else {
                Action::Bell
            },
    {
        let len = history.len();
        if self.history_index >= len {
            return Action::Bell;
        }
        let at = self.history_index;
        history.set(at, string_of(&self.input));
        if at + 1 == len {
            self.input = copy_range(&self.last_input, 0, self.last_input.len());
            assert(self.last_input@.subrange(0, self.last_input@.len() as int)
                =~= self.last_input@);
        } else {
            let entry = history.entry(at + 1);
            self.input = chars_of(entry.as_str());
        }
        self.cursor_pos = self.input.len();
        self.history_index = at + 1;
        Action::Redraw
    }

    /// What Tab has to find out before it can complete the word under the
    /// cursor.
    pub fn get_completions(&self) -> (query: Query)
        requires
            self@.wf(),
        ensures
            query@ == self@.query(),
    {
        let prefix = copy_range(&self.input, 0, self.cursor_pos);
        match &self.completion {
            Some(state) => {
                let typed = string_of(&prefix);
                if same_text(state.prefix.as_str(), typed.as_str()) {
                    return Query::Known(clone_texts(&state.matches));
                }
            },
            None => {},
        }
        if dots(&prefix) {
            return single_match(&prefix, '/');
        }
        let from = find_after_last(&prefix, 0, prefix.len(), ' ');
        let token = copy_range(&prefix, from, prefix.len());
        let cut = find_after_last(&token, 0, token.len(), '/');
        if cut > 0 || from > 0 {
            if dots(&token) {
                single_match(&token, '/')
            } else if cut > 0 {
                Query::Files {
                    dir: string_of_range(&token, 0, cut),
                    stem: string_of_range(&token, cut, token.len()),
                }
            } else {
                let mut dir = String::new();
                dir.push('.');
                assert(dir@ =~= seq!['.']);
                Query::Files { dir, stem: string_of(&token) }
            }
        } else {
            Query::Commands { prefix: string_of(&token) }
        }
    }

    /// Puts `completion` in place of the word part left of the cursor: what
    /// stands after the last white space and, in a path, after the last
    /// `/`. The cursor moves to its end.
    pub fn update_input(&mut self, completion: &Vec<char>)
        requires
            old(self)@.wf(),
        ensures
            final(self)@ == old(self)@.completed(completion@),
            final(self)@.wf(),
    {
        let token = find_token_start(&self.input, self.cursor_pos);
        let start = find_after_last(&self.input, token, self.cursor_pos, '/');
        let mut text = copy_range(&self.input, 0, start);
        let mut middle = copy_range(completion, 0, completion.len());
        let mut tail = copy_range(&self.input, self.cursor_pos, self.input.len());
        assert(completion@.subrange(0, completion@.len() as int) =~= completion@);
        text.append(&mut middle);
        let end = text.len();
        text.append(&mut tail);
        self.input = text;
        self.cursor_pos = end;
    }

    /// Tab, once the matches of the query are known. No match rings the
    /// bell; a single match goes in with a space after it; several matches
    /// extend the word to what they share, or ring the bell and are
    /// remembered, and are listed at the next Tab.
    pub fn handle_tab(&mut self, matches: Vec<String>) -> (action: Action)
        requires
            old(self)@.wf(),
        ensures
            final(self)@ == old(self)@.tabbed(texts(matches@)),
            final(self)@.wf(),
            action == old(self)@.tab_action(texts(matches@)),
    {
        if matches.len() == 0 {
            return Action::Bell;
        }
        assert(texts(matches@)[0] == matches@[0]@);
        if matches.len() == 1 {
            let mut text = chars_of(matches[0].as_str());
            text.push(' ');
            self.update_input(&text);
            return Action::Redraw;
        }
        let common = chars_of(longest_common_prefix(&matches).as_str());
        let token = find_token_start(&self.input, self.cursor_pos);
        let start = find_after_last(&self.input, token, self.cursor_pos, '/');
        if common.len() > self.cursor_pos - start {
            self.update_input(&common);
            return Action::Redraw;
        }
        let typed = string_of_range(&self.input, 0, self.cursor_pos);
        let again = match &self.completion {
            Some(state) => same_text(state.prefix.as_str(), typed.as_str()),
            None => false,
        };
        if again {
            Action::List
        } else {
            self.completion = Some(Completion::new(typed, matches));
            Action::Bell
        }
    }

    /// Control-D on a line that is not empty, once the commands that begin
    /// with what stands before the cursor are known: lists them, or rings
    /// the bell if there is none.
    pub fn show_completions(&self, matches: &Vec<String>) -> (action: Action)
        ensures
            action == if matches@.len() == 0 {
                Action::Bell
            } else {
                Action::List
            },
    {
        if matches.len() == 0 {
            Action::Bell
        } else {
            Action::List
        }
    }

    /// Takes one key: changes the buffer, the cursor and the place in the
    /// history, and says what follows.
    pub fn process_input(&mut self, key: Key, history: &mut History) -> (step: Step)
        requires
            old(self)@.wf(),
        ensures
            final(self)@ == old(self)@.turn(key, old(history)@).editor,
            final(history)@ == old(self)@.turn(key, old(history)@).history,
            step@ == old(self)@.turn(key, old(history)@).step,
            final(self)@.wf(),
    {
        let step = match key {
            Key::Char(c) => {
                if c == '\n' {
                    let line = self.append_history(history);
                    self.reset_input();
                    Step::Submit(line)
                } else if c == '\t' {
                    return Step::Complete(self.get_completions());
                } else {
                    Step::Show(self.insert_char(c))
                }
            },
            Key::Ctrl(c) => {
                if c == 'c' {
                    self.reset_input();
                    Step::Cancel
                } else if c == 'd' {
                    if self.input.len() == 0 {
                        Step::Exit
                    } else {
                        Step::ShowCommands(string_of_range(&self.input, 0, self.cursor_pos))
                    }
                } else {
                    Step::Show(Action::Nothing)
                }
            },
            Key::Backspace => Step::Show(self.backspace()),
            Key::Left => Step::Show(self.move_cursor_left()),
            Key::Right => Step::Show(self.move_cursor_right()),
            Key::Up => Step::Show(self.get_previous_command(history)),
            Key::Down => Step::Show(self.get_next_command(history)),
            Key::Other => Step::Show(Action::Nothing),
        };
        self.completion = None;
        step
    }
}

} // verus!
