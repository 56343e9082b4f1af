//! Spaced-repetition tracker for practice problems.
//!
//! The library is the pure core of the tracker: the calendar-date model,
//! the attempt state machine that turns graded attempts into per-problem
//! progress records, and the query that picks the next unattempted problem
//! from a catalog. All persistence and I/O stays with the caller.

use vstd::prelude::*;
use vstd::string::StrSliceExecFns;

pub mod dates;
pub mod problem_attempts;
pub mod problem_bank;
pub mod problems;
pub mod queries;

verus! {

/// Errors the core can raise; store-level failures are the caller's concern.
#[derive(Clone, Copy, Debug, PartialEq, Eq, Structural)]
pub enum SchedulerError {
    /// A subsequent-attempt transition was invoked with no existing record.
    NoPriorAttempt,
    /// A raw rating value does not map into the closed rating enumeration.
    InvalidGrade,
    /// A date string is not a valid calendar date in `YYYY-MM-DD` form.
    InvalidDate,
}

/// Character-wise equality of two strings.
pub fn str_eq(a: &str, b: &str) -> (r: bool)
    ensures
        r == (a@ == b@),
{
    let alen = a.unicode_len();
    let blen = b.unicode_len();
    if alen != blen {
        return false;
    }
    let mut i: usize = 0;
    while i < alen
        invariant
            i <= alen,
            alen == a@.len(),
            alen == b@.len(),
            forall|j: int| 0 <= j < i ==> a@[j] == b@[j],
        decreases alen - i,
    {
        if a.get_char(i) != b.get_char(i) {
            return false;
        }
        i = i + 1;
    }
    proof {
        assert(a@ =~= b@);
    }
    true
}

} // verus!
