//! Pure catalog queries: given the full catalog and all progress records,
//! pick the next problem to practice.

use vstd::prelude::*;

verus! {

use crate::problem_attempts::{AttemptRating, ProblemAttempt};
use crate::problems::{Problem, problem_eq};

/// Whether some progress record in `progress` belongs to problem `id`.
pub open spec fn spec_attempted(progress: Seq<ProblemAttempt>, id: i64) -> bool {
    exists|i: int| 0 <= i < progress.len() && progress[i].problem_id == id
}

/// Executable test of [`spec_attempted`].
pub fn has_attempt(progress: &Vec<ProblemAttempt>, id: i64) -> (r: bool)
    ensures
        r == spec_attempted(progress@, id),
{
    let mut i: usize = 0;
    while i < progress.len()
        invariant
            i <= progress@.len(),
            forall|j: int| 0 <= j < i ==> progress@[j].problem_id != id,
        decreases progress@.len() - i,
    {
        if progress[i].problem_id == id {
            return true;
        }
        i = i + 1;
    }
    false
}

/// Index `i` names the entry the next-unattempted query must return: an
/// unattempted entry of minimal order, and the first such entry in catalog
/// order among those of minimal order.
pub open spec fn is_next_unattempted(
    problems: Seq<Problem>,
    progress: Seq<ProblemAttempt>,
    i: int,
) -> bool {
    &&& 0 <= i < problems.len()
    &&& !spec_attempted(progress, problems[i].id)
    &&& (forall|j: int|
        0 <= j < problems.len() && !spec_attempted(progress, problems[j].id)
            ==> problems[i].order <= problems[j].order)
    &&& (forall|j: int|
        0 <= j < i ==> spec_attempted(progress, problems[j].id)
            || problems[i].order < problems[j].order)
}

/// Loop invariant of the query: `best` is the answer over the first `k`
/// catalog entries.
pub open spec fn best_over_prefix(
    problems: Seq<Problem>,
    progress: Seq<ProblemAttempt>,
    k: int,
    best: Option<usize>,
) -> bool {
    match best {
        None => forall|j: int| 0 <= j < k ==> spec_attempted(progress, problems[j].id),
        Some(b) => {
            &&& 0 <= b < k
            &&& !spec_attempted(progress, problems[b as int].id)
            &&& (forall|j: int|
                0 <= j < k && !spec_attempted(progress, problems[j].id)
                    ==> problems[b as int].order <= problems[j].order)
            &&& (forall|j: int|
                0 <= j < b ==> spec_attempted(progress, problems[j].id)
                    || problems[b as int].order < problems[j].order)
        },
    }
}

/// Among catalog entries with no progress record, returns the one with the
/// smallest order (the first such entry, if several share that order), or
/// nothing when every catalogued problem has been attempted.
pub fn next_unattempted_problem(
    problems: &Vec<Problem>,
    progress: &Vec<ProblemAttempt>,
) -> (r: Option<Problem>)
    ensures
        (r matches Some(p) ==> exists|i: int|
            is_next_unattempted(problems@, progress@, i) && problem_eq(p, problems@[i])),
        (r matches None ==> forall|j: int|
            0 <= j < problems@.len() ==> spec_attempted(progress@, problems@[j].id)),
{
    let mut best: Option<usize> = None;
    let mut k: usize = 0;
    while k < problems.len()
        invariant
            k <= problems@.len(),
            best_over_prefix(problems@, progress@, k as int, best),
        decreases problems@.len() - k,
    {
        if !has_attempt(progress, problems[k].id) {
            match best {
                None => {
                    best = Some(k);
                },
                Some(b) => {
                    if problems[k].order < problems[b].order {
                        best = Some(k);
                    }
                },
            }
        }
        k = k + 1;
    }
    match best {
        None => None,
        Some(b) => {
            proof {
                assert(is_next_unattempted(problems@, progress@, b as int));
            }
            Some(problems[b].clone())
        },
    }
}

/// How many of the records in `s` carry rating `r`.
pub open spec fn spec_count_rating(s: Seq<ProblemAttempt>, r: AttemptRating) -> nat
    decreases s.len(),
{
    if s.len() == 0 {
        0
    } else {
        spec_count_rating(s.drop_last(), r) + (if s.last().attempt_rating == r {
            1nat
        } else {
            0nat
        })
    }
}

/// Aggregate progress: how many records carry each rating.
#[derive(Debug, Clone, Copy, PartialEq, Eq, Structural)]
pub struct RatingCounts {
    pub easy: usize,
    pub hard: usize,
    pub messy: usize,
    pub long_fail: usize,
    pub short_fail: usize,
}

impl RatingCounts {
    /// The count this aggregate holds for rating `r`.
    pub open spec fn of(self, r: AttemptRating) -> nat {
        match r {
            AttemptRating::Easy => self.easy as nat,
            AttemptRating::Hard => self.hard as nat,
            AttemptRating::Messy => self.messy as nat,
            AttemptRating::LongFail => self.long_fail as nat,
            AttemptRating::ShortFail => self.short_fail as nat,
        }
    }
}

/// Counts, per rating, how many progress records carry that rating.
pub fn rating_counts(progress: &Vec<ProblemAttempt>) -> (r: RatingCounts)
    ensures
        forall|g: AttemptRating| #[trigger] r.of(g) == spec_count_rating(progress@, g),
{
    let mut counts = RatingCounts { easy: 0, hard: 0, messy: 0, long_fail: 0, short_fail: 0 };
    let mut i: usize = 0;
    while i < progress.len()
        invariant
            i <= progress@.len(),
            forall|g: AttemptRating| #[trigger] counts.of(g) == spec_count_rating(
                progress@.take(i as int),
                g,
            ),
            counts.easy + counts.hard + counts.messy + counts.long_fail + counts.short_fail <= i,
        decreases progress@.len() - i,
    {
        let ghost prev = counts;
        match progress[i].attempt_rating {
            AttemptRating::Easy => {
                counts.easy = counts.easy + 1;
            },
            AttemptRating::Hard => {
                counts.hard = counts.hard + 1;
            },
            AttemptRating::Messy => {
                counts.messy = counts.messy + 1;
            },
            AttemptRating::LongFail => {
                counts.long_fail = counts.long_fail + 1;
            },
            AttemptRating::ShortFail => {
                counts.short_fail = counts.short_fail + 1;
            },
        }
        proof {
            assert(progress@.take(i as int + 1).drop_last() =~= progress@.take(i as int));
            assert(progress@.take(i as int + 1).last() == progress@[i as int]);
            assert forall|g: AttemptRating| #[trigger] counts.of(g) == spec_count_rating(
                progress@.take(i as int + 1),
                g,
            ) by {
                assert(prev.of(g) == spec_count_rating(progress@.take(i as int), g));
            }
        }
        i = i + 1;
    }
    proof {
        assert(progress@.take(progress@.len() as int) =~= progress@);
    }
    counts
}

} // verus!
