//! What the line editor writes to the terminal: the prompt, the buffer and
//! the escape sequences that move the cursor and clear the line.

use vstd::prelude::*;
use crate::state::{Action, Editor, EditorModel};
use crate::text::{copy_range, decimal, joined, push_chars, push_joined_by, push_text, texts};

verus! {

/// The escape sequence that moves the cursor `n` columns to the left.
pub open spec fn left_sequence(n: u16) -> Seq<char> {
    seq!['\x1B', '['] + decimal(n as nat) + seq!['D']
}

/// The escape sequence that moves the cursor `n` columns to the right.
pub open spec fn right_sequence(n: u16) -> Seq<char> {
    seq!['\x1B', '['] + decimal(n as nat) + seq!['C']
}

/// The escape sequence that clears the line the cursor is in.
pub open spec fn clear_line_sequence() -> Seq<char> {
    seq!['\x1B', '[', '2', 'K']
}

/// `termion::cursor::Left`, turned into a `String`: the escape character,
/// `[`, the number of columns in decimal, and `D`.
#[verifier::external_body]
fn cursor_left(n: u16) -> (s: String)
    ensures
        s@ == left_sequence(n),
{
    String::from(termion::cursor::Left(n))
}

/// `termion::cursor::Right`, turned into a `String`: the escape character,
/// `[`, the number of columns in decimal, and `C`.
#[verifier::external_body]
fn cursor_right(n: u16) -> (s: String)
    ensures
        s@ == right_sequence(n),
{
    String::from(termion::cursor::Right(n))
}

/// `termion::clear::CurrentLine`, seen as text: the escape character and
/// `[2K`.
#[verifier::external_body]
fn clear_current_line() -> (s: &'static str)
    ensures
        s@ == clear_line_sequence(),
{
    let sequence: &'static str = termion::clear::CurrentLine.as_ref();
    sequence
}

/// The line as it is drawn: back to the first column, the line cleared,
/// the prompt and the buffer.
pub open spec fn drawn(input: Seq<char>) -> Seq<char> {
    seq!['\r'] + clear_line_sequence() + seq!['$', ' '] + input
}

/// Where the text of an insertion begins: at the character left of the
/// cursor.
pub open spec fn inserted_from(m: EditorModel) -> int {
    if m.cursor > 0 {
        m.cursor - 1
    } else {
        0
    }
}

/// What the terminal is sent for an action, with the editor as the action
/// left it. `matches` is what a list shows.
pub open spec fn rendering(m: EditorModel, action: Action, matches: Seq<Seq<char>>) -> Seq<char> {
    match action {
        Action::Nothing => Seq::empty(),
        Action::Bell => seq!['\x07'],
        Action::Left => left_sequence(1),
        Action::Right => right_sequence(1),
        Action::Erase => left_sequence(1) + seq![' '] + left_sequence(1),
        Action::Insert { back } => m.input.subrange(inserted_from(m), m.input.len() as int) + (
        if back > 0 {
            left_sequence(back as u16)
        } else {
            Seq::empty()
        }),
        Action::Redraw => drawn(m.input),
        Action::List => seq!['\r', '\n'] + joined(matches, seq![' ', ' ']) + seq!['\n'] + drawn(
            m.input,
        ),
    }
}

fn push_drawn(out: &mut String, editor: &Editor)
    ensures
        final(out)@ == old(out)@ + drawn(editor@.input),
{
    let ghost before = out@;
    out.push('\r');
    push_text(out, clear_current_line());
    out.push('$');
    out.push(' ');
    push_chars(out, editor.input());
    assert(out@ =~= before + drawn(editor@.input));
}

/// The text to send to the terminal for `action`, after the editor took
/// the key that led to it. `matches` is what a list shows.
pub fn render(editor: &Editor, action: Action, matches: &Vec<String>) -> (s: String)
    requires
        editor@.wf(),
    ensures
        s@ == rendering(editor@, action, texts(matches@)),
{
    let mut s = String::new();
    match action {
        Action::Nothing => {},
        Action::Bell => {
            s.push('\x07');
            assert(s@ =~= seq!['\x07']);
        },
        Action::Left => {
            s = cursor_left(1);
        },
        Action::Right => {
            s = cursor_right(1);
        },
        Action::Erase => {
            push_text(&mut s, cursor_left(1).as_str());
            s.push(' ');
            push_text(&mut s, cursor_left(1).as_str());
            assert(s@ =~= left_sequence(1) + seq![' '] + left_sequence(1));
        },
        Action::Insert { back } => {
            let input = editor.input();
            let from = if editor.cursor() > 0 {
                editor.cursor() - 1
            } else {
                0
            };
            let tail = copy_range(input, from, input.len());
            push_chars(&mut s, &tail);
            if back > 0 {
                push_text(&mut s, cursor_left(#[verifier::truncate] (back as u16)).as_str());
            }
            assert(s@ =~= rendering(editor@, action, texts(matches@)));
        },
        Action::Redraw => {
            push_drawn(&mut s, editor);
            assert(s@ =~= drawn(editor@.input));
        },
        Action::List => {
            s.push('\r');
            s.push('\n');
            push_joined_by(&mut s, matches, "  ");
            s.push('\n');
            push_drawn(&mut s, editor);
            proof {
                reveal_strlit("  ");
                assert("  "@ =~= seq![' ', ' ']);
                assert(s@ =~= rendering(editor@, action, texts(matches@)));
            }
        },
    }
    s
}

} // verus!
