//! What a finished process reports.

use vstd::prelude::*;

verus! {

/// The status of a process that was ended by a signal and so left no exit
/// code.
pub const SIGNALLED: i32 = 128;

/// The status of a finished process: its exit code, or 128 where it left
/// none.
pub fn status_of(code: Option<i32>) -> (status: i32)
    ensures
        status == match code {
            Some(n) => n,
            None => SIGNALLED,
        },
{
    match code {
        Some(n) => n,
        None => SIGNALLED,
    }
}

} // verus!
