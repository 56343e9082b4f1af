//! The attempt state machine: per-problem progress records and the two
//! transitions that record a graded attempt (first attempt, subsequent
//! attempt), plus the interval scheduler that sets the next due date.

use vstd::prelude::*;

verus! {

use crate::SchedulerError;
use crate::str_eq;
use crate::dates::{Date, date_le, spec_add_days, add_days, lemma_add_days_not_earlier};

/// Quality of a single attempt, ordered from best to worst:
/// `Easy > Hard > Messy > LongFail > ShortFail`.
#[derive(Hash, Debug, Clone, Copy, PartialEq, Eq, Structural)]
pub enum AttemptRating {
    Easy,
    Hard,
    Messy,
    LongFail,
    ShortFail,
}

/// Days until the next review, given the rating of the attempt just recorded
/// and the total number of attempts so far; `None` would mean "never again".
///
/// The reference behavior is a constant one-day interval for every input.
pub open spec fn spec_next_interval(
    most_recent_attempt_rating: AttemptRating,
    total_number_of_attempts: i64,
) -> Option<u32> {
    Some(1u32)
}

/// Executable twin of [`spec_next_interval`]: total over every rating and
/// attempt count, and deterministic.
pub fn next_interval(
    most_recent_attempt_rating: AttemptRating,
    total_number_of_attempts: i64,
) -> (r: Option<u32>)
    ensures
        r == spec_next_interval(most_recent_attempt_rating, total_number_of_attempts),
{
    let very_clever_calculation_for_days: u32 = 1;
    Some(very_clever_calculation_for_days)
}

/// Per-problem progress: the durable summary of attempt history and the
/// next review date.
#[derive(Debug, Clone, Copy, PartialEq, Eq, Structural)]
pub struct ProblemAttempt {
    pub problem_id: i64,
    pub last_attempted: Date,
    pub attempt_rating: AttemptRating,
    pub next_attempt_date: Option<Date>,
    pub number_of_attempts: i64,
}

/// The record produced by a first attempt.
pub open spec fn spec_new_attempt(
    problem_id: i64,
    attempt_rating: AttemptRating,
    attempt_date: Date,
) -> ProblemAttempt {
    ProblemAttempt {
        problem_id,
        last_attempted: attempt_date,
        attempt_rating,
        next_attempt_date: match spec_next_interval(attempt_rating, 0) {
            Some(days) => Some(spec_add_days(attempt_date, days as nat)),
            None => None,
        },
        number_of_attempts: 1,
    }
}

/// The record produced by recording one more attempt on `existing`.
pub open spec fn spec_update_attempt(
    existing: ProblemAttempt,
    latest_rating: AttemptRating,
    attempt_date: Date,
) -> ProblemAttempt {
    ProblemAttempt {
        problem_id: existing.problem_id,
        last_attempted: attempt_date,
        attempt_rating: latest_rating,
        next_attempt_date: match spec_next_interval(
            latest_rating,
            (existing.number_of_attempts + 1) as i64,
        ) {
            Some(days) => Some(spec_add_days(attempt_date, days as nat)),
            None => None,
        },
        number_of_attempts: (existing.number_of_attempts + 1) as i64,
    }
}

impl ProblemAttempt {
    /// Record invariant: at least one attempt, a well-formed attempt date,
    /// and a next due date (when present) that is well formed and never
    /// earlier than the last attempt.
    pub open spec fn wf(self) -> bool {
        &&& self.number_of_attempts >= 1
        &&& self.last_attempted.wf()
        &&& match self.next_attempt_date {
            Some(nd) => nd.wf() && date_le(self.last_attempted, nd),
            None => true,
        }
    }

    /// First-attempt transition: builds the record for a problem with no
    /// prior history. Pure: persistence is the caller's responsibility.
    pub fn new_attempt(
        problem_id: i64,
        attempt_rating: AttemptRating,
        attempt_date: Date,
    ) -> (r: ProblemAttempt)
        requires
            attempt_date.wf(),
            attempt_date.year < i64::MAX,
        ensures
            r == spec_new_attempt(problem_id, attempt_rating, attempt_date),
            r.wf(),
            r.problem_id == problem_id,
            r.number_of_attempts == 1,
            r.last_attempted == attempt_date,
            r.attempt_rating == attempt_rating,
    {
        let next_attempt_date: Option<Date> = match next_interval(attempt_rating, 0) {
            Some(days) => Some(add_days(attempt_date, days)),
            None => None,
        };
        ProblemAttempt {
            problem_id,
            last_attempted: attempt_date,
            attempt_rating,
            next_attempt_date,
            number_of_attempts: 1,
        }
    }

    /// Subsequent-attempt transition: records one more graded attempt on an
    /// existing record. Pure: mutates only the copy it was given.
    pub fn update_attempt(
        &mut self,
        latest_rating: AttemptRating,
        attempt_date: Date,
    )
        requires
            old(self).wf(),
            old(self).number_of_attempts < i64::MAX,
            attempt_date.wf(),
            attempt_date.year < i64::MAX,
        ensures
            *final(self) == spec_update_attempt(*old(self), latest_rating, attempt_date),
            final(self).wf(),
            final(self).problem_id == old(self).problem_id,
            final(self).number_of_attempts == old(self).number_of_attempts + 1,
            final(self).last_attempted == attempt_date,
            final(self).attempt_rating == latest_rating,
    {
        self.attempt_rating = latest_rating;
        self.number_of_attempts = self.number_of_attempts + 1;
        self.last_attempted = attempt_date;
        self.next_attempt_date = match next_interval(latest_rating, self.number_of_attempts) {
            Some(days) => Some(add_days(self.last_attempted, days)),
            None => None,
        };
    }

    /// Subsequent-attempt transition over a caller-fetched record that may be
    /// absent: fails with [`SchedulerError::NoPriorAttempt`] when there is no
    /// existing record, and never silently behaves like a first attempt.
    pub fn subsequent_attempt(
        existing: Option<ProblemAttempt>,
        latest_rating: AttemptRating,
        attempt_date: Date,
    ) -> (r: Result<ProblemAttempt, SchedulerError>)
        requires
            (match existing {
                Some(e) => e.wf() && e.number_of_attempts < i64::MAX,
                None => true,
            }),
            attempt_date.wf(),
            attempt_date.year < i64::MAX,
        ensures
            (match existing {
                Some(e) => r == Ok::<ProblemAttempt, SchedulerError>(
                    spec_update_attempt(e, latest_rating, attempt_date),
                ),
                None => r == Err::<ProblemAttempt, SchedulerError>(SchedulerError::NoPriorAttempt),
            }),
            (r matches Ok(a) ==> a.wf()),
    {
        match existing {
            Some(e) => {
                let mut updated = e;
                updated.update_attempt(latest_rating, attempt_date);
                Ok(updated)
            },
            None => Err(SchedulerError::NoPriorAttempt),
        }
    }
}

/// Maps a raw 1-to-5 rating (worst to best) into the closed rating
/// enumeration; any other value is rejected, never coerced.
pub fn map_rating(rating_num: u8) -> (r: Result<AttemptRating, SchedulerError>)
    ensures
        r == (match rating_num {
            1u8 => Ok::<AttemptRating, SchedulerError>(AttemptRating::ShortFail),
            2u8 => Ok::<AttemptRating, SchedulerError>(AttemptRating::LongFail),
            3u8 => Ok::<AttemptRating, SchedulerError>(AttemptRating::Messy),
            4u8 => Ok::<AttemptRating, SchedulerError>(AttemptRating::Hard),
            5u8 => Ok::<AttemptRating, SchedulerError>(AttemptRating::Easy),
            _ => Err::<AttemptRating, SchedulerError>(SchedulerError::InvalidGrade),
        }),
{
    match rating_num {
        1 => Ok(AttemptRating::ShortFail),
        2 => Ok(AttemptRating::LongFail),
        3 => Ok(AttemptRating::Messy),
        4 => Ok(AttemptRating::Hard),
        5 => Ok(AttemptRating::Easy),
        _ => Err(SchedulerError::InvalidGrade),
    }
}

/// The stable text label under which a rating is persisted.
pub open spec fn spec_rating_text(r: AttemptRating) -> Seq<char> {
    match r {
        AttemptRating::Easy => "Easy"@,
        AttemptRating::Hard => "Hard"@,
        AttemptRating::Messy => "Messy"@,
        AttemptRating::LongFail => "LongFail"@,
        AttemptRating::ShortFail => "ShortFail"@,
    }
}

/// The rating a text label decodes to, if any.
pub open spec fn spec_rating_of_text(s: Seq<char>) -> Option<AttemptRating> {
    if s == spec_rating_text(AttemptRating::Easy) {
        Some(AttemptRating::Easy)
    } else if s == spec_rating_text(AttemptRating::Hard) {
        Some(AttemptRating::Hard)
    } else if s == spec_rating_text(AttemptRating::Messy) {
        Some(AttemptRating::Messy)
    } else if s == spec_rating_text(AttemptRating::LongFail) {
        Some(AttemptRating::LongFail)
    } else if s == spec_rating_text(AttemptRating::ShortFail) {
        Some(AttemptRating::ShortFail)
    } else {
        None
    }
}

/// Encodes a rating as its stable text label.
pub fn rating_to_text(r: AttemptRating) -> (t: String)
    ensures
        t@ == spec_rating_text(r),
{
    match r {
        AttemptRating::Easy => "Easy".to_owned(),
        AttemptRating::Hard => "Hard".to_owned(),
        AttemptRating::Messy => "Messy".to_owned(),
        AttemptRating::LongFail => "LongFail".to_owned(),
        AttemptRating::ShortFail => "ShortFail".to_owned(),
    }
}

/// Decodes a stored text label back into a rating; an unknown label is
/// rejected with [`SchedulerError::InvalidGrade`], never coerced.
pub fn rating_from_text(s: &str) -> (r: Result<AttemptRating, SchedulerError>)
    ensures
        (match spec_rating_of_text(s@) {
            Some(x) => r == Ok::<AttemptRating, SchedulerError>(x),
            None => r == Err::<AttemptRating, SchedulerError>(SchedulerError::InvalidGrade),
        }),
{
    if str_eq(s, "Easy") {
        Ok(AttemptRating::Easy)
    } else if str_eq(s, "Hard") {
        Ok(AttemptRating::Hard)
    } else if str_eq(s, "Messy") {
        Ok(AttemptRating::Messy)
    } else if str_eq(s, "LongFail") {
        Ok(AttemptRating::LongFail)
    } else if str_eq(s, "ShortFail") {
        Ok(AttemptRating::ShortFail)
    } else {
        Err(SchedulerError::InvalidGrade)
    }
}

/// The persisted rating encoding is bidirectional: every rating's text
/// label decodes back to that same rating.
pub proof fn lemma_rating_text_round_trip(r: AttemptRating)
    ensures
        spec_rating_of_text(spec_rating_text(r)) == Some(r),
{
    reveal_strlit("Easy");
    reveal_strlit("Hard");
    reveal_strlit("Messy");
    reveal_strlit("LongFail");
    reveal_strlit("ShortFail");
    assert("Easy"@.len() == 4 && "Hard"@.len() == 4 && "Messy"@.len() == 5
        && "LongFail"@.len() == 8 && "ShortFail"@.len() == 9);
    assert("Hard"@ != "Easy"@) by {
        assert("Hard"@[0] == 'H' && "Easy"@[0] == 'E');
    }
}

/// A first attempt is a pure function of its inputs: two first attempts
/// built from the same problem, rating and date are structurally equal,
/// with no hidden state across calls.
pub proof fn lemma_first_attempt_pure(
    a: ProblemAttempt,
    b: ProblemAttempt,
    problem_id: i64,
    attempt_rating: AttemptRating,
    attempt_date: Date,
)
    requires
        a == spec_new_attempt(problem_id, attempt_rating, attempt_date),
        b == spec_new_attempt(problem_id, attempt_rating, attempt_date),
    ensures
        a == b,
{
}

/// For any well-formed record, a scheduled next due date is never earlier
/// than the date of the last attempt.
pub proof fn lemma_record_due_not_earlier(r: ProblemAttempt)
    requires
        r.wf(),
    ensures
        (r.next_attempt_date matches Some(nd) ==> date_le(r.last_attempted, nd)),
{
}

/// Whenever a first attempt schedules a next due date, that date is never
/// earlier than the attempt date, for every rating.
pub proof fn lemma_first_attempt_due_not_earlier(
    problem_id: i64,
    attempt_rating: AttemptRating,
    attempt_date: Date,
)
    requires
        attempt_date.wf(),
        attempt_date.year < i64::MAX,
    ensures
        (spec_new_attempt(problem_id, attempt_rating, attempt_date).next_attempt_date
            matches Some(nd) ==> date_le(attempt_date, nd)),
{
    match spec_next_interval(attempt_rating, 0) {
        Some(days) => lemma_add_days_not_earlier(attempt_date, days as nat),
        None => {},
    }
}

/// Whenever a subsequent attempt schedules a next due date, that date is
/// never earlier than the new attempt date, for every rating and every
/// attempt count.
pub proof fn lemma_subsequent_attempt_due_not_earlier(
    existing: ProblemAttempt,
    latest_rating: AttemptRating,
    attempt_date: Date,
)
    requires
        attempt_date.wf(),
        attempt_date.year < i64::MAX,
    ensures
        (spec_update_attempt(existing, latest_rating, attempt_date).next_attempt_date
            matches Some(nd) ==> date_le(attempt_date, nd)),
{
    match spec_next_interval(latest_rating, (existing.number_of_attempts + 1) as i64) {
        Some(days) => lemma_add_days_not_earlier(attempt_date, days as nat),
        None => {},
    }
}

} // verus!
