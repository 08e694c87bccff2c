//! The history store: the command lines entered so far, and which of them
//! have already been written to the history file.

use vstd::prelude::*;
use crate::text::{decimal, lemma_texts_push, padded, push_padded_number, push_text, texts};

verus! {

/// The history store.
pub struct History {
    entries: Vec<String>,
    append_index: usize,
}

/// What a history store holds: its entries, oldest first, and the boundary
/// before which entries count as written to the file.
pub struct HistoryModel {
    pub entries: Seq<Seq<char>>,
    pub boundary: nat,
}

impl HistoryModel {
    /// The entries that have not been written to the file yet.
    pub open spec fn pending(self) -> Seq<Seq<char>> {
        if self.boundary >= self.entries.len() {
            Seq::empty()
        } else {
            self.entries.subrange(self.boundary as int, self.entries.len() as int)
        }
    }

    /// The store after a flush: every entry counts as written.
    pub open spec fn flushed(self) -> HistoryModel {
        HistoryModel { entries: self.entries, boundary: self.entries.len() }
    }

    /// The store after `command` was offered: empty commands and repetitions
    /// of the newest entry are not recorded.
    pub open spec fn added(self, command: Seq<char>) -> HistoryModel {
        if command.len() == 0 || (self.entries.len() > 0 && self.entries.last() == command) {
            self
        } else {
            HistoryModel { entries: self.entries.push(command), boundary: self.boundary }
        }
    }

    /// The store after the entry at `index` was replaced, if there is one.
    pub open spec fn replaced(self, index: nat, command: Seq<char>) -> HistoryModel {
        if index < self.entries.len() {
            HistoryModel {
                entries: self.entries.update(index as int, command),
                boundary: self.boundary,
            }
        } else {
            self
        }
    }
}

/// One line of a listing: the entry's number in five columns, a space, the
/// entry and a newline.
pub open spec fn listing_line(number: nat, entry: Seq<char>) -> Seq<char> {
    padded(decimal(number), 5) + seq![' '] + entry + seq!['\n']
}

/// The listing of the entries from `start` up to `end`, numbered from one.
pub open spec fn listing(entries: Seq<Seq<char>>, start: int, end: int) -> Seq<char>
    decreases end - start,
{
    if end <= start || end > entries.len() || start < 0 {
        Seq::empty()
    } else {
        listing(entries, start, end - 1) + listing_line(end as nat, entries[end - 1])
    }
}

/// Where a listing of at most `limit` entries begins.
pub open spec fn listing_start(len: nat, limit: Option<usize>) -> nat {
    match limit {
        Some(n) => if n >= len {
            0
        } else {
            (len - n) as nat
        },
        None => 0,
    }
}

impl View for History {
    type V = HistoryModel;

    closed spec fn view(&self) -> HistoryModel {
        HistoryModel { entries: texts(self.entries@), boundary: self.append_index as nat }
    }
}

impl History {
    /// A store that holds the lines read from the history file. All of them
    /// count as written.
    pub fn open(persisted: Vec<String>) -> (h: History)
        ensures
            h@.entries == texts(persisted@),
            h@.boundary == persisted@.len(),
    {
        let len = persisted.len();
        History { entries: persisted, append_index: len }
    }

    /// The number of entries.
    pub fn len(&self) -> (n: usize)
        ensures
            n == self@.entries.len(),
    {
        self.entries.len()
    }

    /// Records a command, unless it is empty or repeats the newest entry.
    pub fn add(&mut self, command: String)
        ensures
            final(self)@ == old(self)@.added(command@),
    {
        if command.as_str().is_empty() {
            return ;
        }
        let n = self.entries.len();
        if n > 0 && self.entries[n - 1] == command {
            assert(texts(self.entries@).last() == self.entries@[n - 1]@);
            return ;
        }
        proof {
            lemma_texts_push(self.entries@, command);
            if n > 0 {
                assert(texts(self.entries@).last() == self.entries@[n - 1]@);
            }
        }
        self.entries.push(command);
    }

    /// The entry at `index`, if there is one.
    pub fn get(&self, index: usize) -> (r: Option<String>)
        ensures
            match r {
                Some(entry) => index < self@.entries.len() && entry@ == self@.entries[index as int],
                None => index >= self@.entries.len(),
            },
    {
        if index < self.entries.len() {
            Some(self.entries[index].clone())
        } else {
            None
        }
    }

    /// The entry at `index`.
    pub fn entry(&self, index: usize) -> (r: String)
        requires
            index < self@.entries.len(),
        ensures
            r@ == self@.entries[index as int],
    {
        self.entries[index].clone()
    }

    /// Replaces the entry at `index`, if there is one.
    pub fn set(&mut self, index: usize, command: String)
        ensures
            final(self)@ == old(self)@.replaced(index as nat, command@),
    {
        if index < self.entries.len() {
            let ghost before = self.entries@;
            self.entries[index] = command;
            assert(texts(self.entries@) =~= texts(before).update(index as int, command@));
        }
    }

    /// Removes every entry. The boundary of what was written stays.
    pub fn clear(&mut self)
        ensures
            final(self)@.entries == Seq::<Seq<char>>::empty(),
            final(self)@.boundary == old(self)@.boundary,
    {
        self.entries.clear();
        assert(texts(self.entries@) =~= Seq::<Seq<char>>::empty());
    }

    /// Writes to `writer` the listing of the newest `limit` entries, or of
    /// all entries where there is no limit or fewer entries than that.
    pub fn print(&self, writer: &mut String, limit: Option<usize>)
        ensures
            final(writer)@ == old(writer)@ + listing(
                self@.entries,
                listing_start(self@.entries.len(), limit) as int,
                self@.entries.len() as int,
            ),
    {
        let len = self.entries.len();
        let start: usize = match limit {
            Some(n) => if n >= len {
                0
            } else {
                len - n
            },
            None => 0,
        };
        let ghost entries = texts(self.entries@);
        let mut i: usize = start;
        assert(writer@ =~= old(writer)@ + listing(entries, start as int, start as int));
        while i < len
            invariant
                start <= i <= len,
                len == self.entries@.len(),
                entries == texts(self.entries@),
                writer@ == old(writer)@ + listing(entries, start as int, i as int),
            decreases len - i,
        {
            let ghost before = writer@;
            push_padded_number(writer, i + 1, 5);
            writer.push(' ');
            push_text(writer, self.entries[i].as_str());
            writer.push('\n');
            i += 1;
            assert(writer@ =~= before + listing_line(i as nat, entries[i - 1]));
            assert(writer@ =~= old(writer)@ + listing(entries, start as int, i as int));
        }
    }

    /// The lines that a rewrite of the history file holds: every entry.
    pub fn lines_to_write(&self) -> (lines: Vec<String>)
        ensures
            texts(lines@) == self@.entries,
    {
        self.lines_from(0)
    }

    /// The lines that an append to the history file adds: the entries that
    /// have not been written yet.
    pub fn lines_to_append(&self) -> (lines: Vec<String>)
        ensures
            texts(lines@) == self@.pending(),
    {
        if self.append_index >= self.entries.len() {
            let lines: Vec<String> = Vec::new();
            assert(texts(lines@) =~= Seq::<Seq<char>>::empty());
            lines
        } else {
            self.lines_from(self.append_index)
        }
    }

    /// Marks every entry as written, after the file was rewritten or
    /// appended to.
    pub fn mark_flushed(&mut self)
        ensures
            final(self)@ == old(self)@.flushed(),
    {
        self.append_index = self.entries.len();
    }

    /// Adds the lines read from a file after the entries.
    pub fn append_lines(&mut self, lines: Vec<String>)
        ensures
            final(self)@.entries == old(self)@.entries + texts(lines@),
            final(self)@.boundary == old(self)@.boundary,
    {
        let mut lines = lines;
        proof {
            assert(texts(self.entries@ + lines@) =~= texts(self.entries@) + texts(lines@));
        }
        self.entries.append(&mut lines);
    }

    fn lines_from(&self, start: usize) -> (lines: Vec<String>)
        requires
            start <= self.entries@.len(),
        ensures
            texts(lines@) == texts(self.entries@).subrange(
                start as int,
                self.entries@.len() as int,
            ),
    {
        let mut lines: Vec<String> = Vec::new();
        let mut i: usize = start;
        assert(texts(lines@) =~= texts(self.entries@).subrange(start as int, start as int));
        while i < self.entries.len()
            invariant
                start <= i <= self.entries@.len(),
                texts(lines@) == texts(self.entries@).subrange(start as int, i as int),
            decreases self.entries@.len() - i,
        {
            let line = self.entries[i].clone();
            proof {
                lemma_texts_push(lines@, line);
            }
            lines.push(line);
            i += 1;
            assert(texts(lines@) =~= texts(self.entries@).subrange(start as int, i as int));
        }
        lines
    }
}

/// After a flush nothing is pending: a second append to the file, with no
/// entry added in between, writes no line, and so does an append that
/// follows a rewrite.
pub proof fn lemma_flush_leaves_nothing_pending(h: HistoryModel)
    ensures
        h.flushed().pending() == Seq::<Seq<char>>::empty(),
        h.flushed().flushed() == h.flushed(),
{
}

/// What is pending after a flush and some additions is what the additions
/// recorded.
pub proof fn lemma_pending_after_add(h: HistoryModel, command: Seq<char>)
    ensures
        h.flushed().added(command).pending() == if h.flushed().added(command) == h.flushed() {
            Seq::<Seq<char>>::empty()
        } else {
            seq![command]
        },
{
    let f = h.flushed();
    if f.added(command) != f {
        assert(f.added(command).pending() =~= seq![command]);
    }
}

} // verus!
