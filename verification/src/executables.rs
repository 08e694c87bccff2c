//! The search for executables along a list of directories: which directory
//! an entry of the list stands for, which candidate wins, and the list of
//! every executable's name.

use vstd::prelude::*;
use crate::candidates::{sorted_names, strictly_sorted};
use crate::text::texts;

verus! {

/// The directory that an entry of the search list stands for: an empty
/// entry is the current directory.
pub open spec fn search_dir_spec(entry: Seq<char>) -> Seq<char> {
    if entry.len() == 0 {
        seq!['.']
    } else {
        entry
    }
}

/// The directory that an entry of the search list stands for.
pub fn search_dir(entry: &str) -> (dir: String)
    ensures
        dir@ == search_dir_spec(entry@),
{
    if entry.is_empty() {
        let mut dir = String::new();
        dir.push('.');
        assert(dir@ =~= seq!['.']);
        dir
    } else {
        entry.to_owned()
    }
}

/// The position of the candidate that the search selects: the first one
/// that is an executable file. `executable` says of each candidate, in the
/// order of the search list, whether it is one.
pub fn find_executable_in_path(executable: &Vec<bool>) -> (r: Option<usize>)
    ensures
        match r {
            Some(k) => k < executable@.len() && executable@[k as int] && forall|j: int|
                0 <= j < k ==> !executable@[j],
            None => forall|j: int| 0 <= j < executable@.len() ==> !executable@[j],
        },
{
    let mut i: usize = 0;
    while i < executable.len()
        invariant
            i <= executable@.len(),
            forall|j: int| 0 <= j < i ==> !executable@[j],
        decreases executable@.len() - i,
    {
        if executable[i] {
            return Some(i);
        }
        i += 1;
    }
    None
}

/// The names of the executables found along the search list, in order,
/// each once.
pub fn get_all_executables(names: &Vec<String>) -> (execs: Vec<String>)
    ensures
        strictly_sorted(texts(execs@)),
        forall|t: Seq<char>| texts(execs@).contains(t) <==> texts(names@).contains(t),
{
    sorted_names(names)
}

} // verus!
