//! Completion of command names for a line editor that asks with a line and
//! a byte position in it.

use vstd::prelude::*;
use vstd::string::StrSliceExecFns;
use vstd::utf8::encode_utf8;
use crate::text::{push_text, texts};

verus! {

/// A candidate of a completion: what is shown, and what replaces the word.
#[derive(Debug, Clone, PartialEq, Eq)]
pub struct Candidate {
    pub display: String,
    pub replacement: String,
}

/// A candidate over character sequences.
pub struct CandidateModel {
    pub display: Seq<char>,
    pub replacement: Seq<char>,
}

impl View for Candidate {
    type V = CandidateModel;

    open spec fn view(&self) -> CandidateModel {
        CandidateModel { display: self.display@, replacement: self.replacement@ }
    }
}

/// The models of a sequence of candidates.
pub open spec fn candidate_views(v: Seq<Candidate>) -> Seq<CandidateModel> {
    v.map_values(|c: Candidate| c@)
}

/// The texts of a sequence of string slices.
pub open spec fn slice_texts(v: Seq<&'static str>) -> Seq<Seq<char>> {
    v.map_values(|s: &'static str| s@)
}

/// The position after the last space among the first `n` bytes, or 0.
pub open spec fn word_start(bytes: Seq<u8>, n: int) -> int
    decreases n,
{
    if n <= 0 || n > bytes.len() {
        0
    } else if bytes[n - 1] == 0x20 {
        n
    } else {
        word_start(bytes, n - 1)
    }
}

/// The candidate for a command's name: the name is shown, and the name
/// with a space after it replaces the word.
pub open spec fn candidate_of(name: Seq<char>) -> CandidateModel {
    CandidateModel { display: name, replacement: name.push(' ') }
}

/// The candidates among the first `n` names: those whose bytes begin with
/// `word`, in the order of the names.
pub open spec fn chosen(names: Seq<Seq<char>>, n: int, word: Seq<u8>) -> Seq<CandidateModel>
    decreases n,
{
    if n <= 0 || n > names.len() {
        Seq::empty()
    } else if word.is_prefix_of(encode_utf8(names[n - 1])) {
        chosen(names, n - 1, word).push(candidate_of(names[n - 1]))
    } else {
        chosen(names, n - 1, word)
    }
}

/// The names that a completion chooses from.
pub struct ShellHelper {
    pub builtins: Vec<&'static str>,
    pub system_commands: Vec<String>,
}

fn begins_with(name: &Vec<u8>, word: &Vec<u8>) -> (r: bool)
    ensures
        r == word@.is_prefix_of(name@),
{
    if word.len() > name.len() {
        return false;
    }
    let mut i: usize = 0;
    while i < word.len()
        invariant
            i <= word.len() <= name.len(),
            forall|k: int| 0 <= k < i ==> word@[k] == name@[k],
        decreases word.len() - i,
    {
        if word[i] != name[i] {
            assert(name@.subrange(0, word@.len() as int)[i as int] == name@[i as int]);
            return false;
        }
        i += 1;
    }
    assert(word@ =~= name@.subrange(0, word@.len() as int));
    true
}

fn offer(out: &mut Vec<Candidate>, name: &str, word: &Vec<u8>)
    ensures
        candidate_views(final(out)@) == if word@.is_prefix_of(encode_utf8(name@)) {
            candidate_views(old(out)@).push(candidate_of(name@))
        } else {
            candidate_views(old(out)@)
        },
{
    let bytes = name.as_bytes_vec();
    if begins_with(&bytes, word) {
        let mut replacement = name.to_owned();
        replacement.push(' ');
        let candidate = Candidate { display: name.to_owned(), replacement };
        assert(candidate_views(out@.push(candidate)) =~= candidate_views(out@).push(
            candidate_of(name@),
        ));
        out.push(candidate);
    }
}

impl ShellHelper {
    /// The names to choose from: the built-in commands, then the others.
    pub open spec fn names(&self) -> Seq<Seq<char>> {
        slice_texts(self.builtins@) + texts(self.system_commands@)
    }

    /// Completes the word that ends at byte `pos` of `line` and begins
    /// after the last space before it. Returns where the word begins, and
    /// one candidate for each name that begins with the word: first the
    /// built-in commands, then the others, each in the order given.
    pub fn complete(&self, line: &str, pos: usize) -> (r: (usize, Vec<Candidate>))
        requires
            pos <= encode_utf8(line@).len(),
        ensures
            r.0 == word_start(encode_utf8(line@), pos as int),
            candidate_views(r.1@) == chosen(
                self.names(),
                self.names().len() as int,
                encode_utf8(line@).subrange(r.0 as int, pos as int),
            ),
    {
        let bytes = line.as_bytes_vec();
        let mut start: usize = pos;
        while start > 0 && bytes[start - 1] != 0x20
            invariant
                start <= pos <= bytes@.len(),
                word_start(bytes@, pos as int) == word_start(bytes@, start as int),
            decreases start,
        {
            start -= 1;
        }
        let mut word: Vec<u8> = Vec::new();
        let mut k: usize = start;
        while k < pos
            invariant
                start <= k <= pos <= bytes@.len(),
                word@ == bytes@.subrange(start as int, k as int),
            decreases pos - k,
        {
            word.push(bytes[k]);
            k += 1;
            assert(word@ =~= bytes@.subrange(start as int, k as int));
        }
        let ghost names = self.names();
        let mut candidates: Vec<Candidate> = Vec::new();
        assert(candidate_views(candidates@) =~= Seq::<CandidateModel>::empty());
        let mut i: usize = 0;
        while i < self.builtins.len()
            invariant
                i <= self.builtins@.len(),
                names == self.names(),
                candidate_views(candidates@) == chosen(names, i as int, word@),
            decreases self.builtins@.len() - i,
        {
            assert(names[i as int] == self.builtins@[i as int]@);
            offer(&mut candidates, self.builtins[i], &word);
            i += 1;
        }
        let first = self.builtins.len();
        let mut j: usize = 0;
        while j < self.system_commands.len()
            invariant
                j <= self.system_commands@.len(),
                first == self.builtins@.len(),
                names == self.names(),
                candidate_views(candidates@) == chosen(names, first + j, word@),
            decreases self.system_commands@.len() - j,
        {
            assert(names[first + j] == self.system_commands@[j as int]@);
            offer(&mut candidates, self.system_commands[j].as_str(), &word);
            j += 1;
        }
        (start, candidates)
    }
}

} // verus!
