use lc_tracking::SchedulerError;
use lc_tracking::dates::Date;
use lc_tracking::problem_attempts::{AttemptRating, ProblemAttempt, map_rating, next_interval};

fn date(year: i64, month: u8, day: u8) -> Date {
    Date { year, month, day }
}

const ALL_RATINGS: [AttemptRating; 5] = [
    AttemptRating::Easy,
    AttemptRating::Hard,
    AttemptRating::Messy,
    AttemptRating::LongFail,
    AttemptRating::ShortFail,
];

#[test]
fn first_attempt_sets_count_date_and_grade() {
    for &g in ALL_RATINGS.iter() {
        let d = date(2023, 7, 15);
        let r = ProblemAttempt::new_attempt(7, g, d);
        assert_eq!(r.problem_id, 7);
        assert_eq!(r.number_of_attempts, 1);
        assert_eq!(r.last_attempted, d);
        assert_eq!(r.attempt_rating, g);
    }
}

#[test]
fn first_attempt_scenario_easy_2024_01_01() {
    let r = ProblemAttempt::new_attempt(42, AttemptRating::Easy, date(2024, 1, 1));
    assert_eq!(r.problem_id, 42);
    assert_eq!(r.number_of_attempts, 1);
    assert_eq!(r.last_attempted, date(2024, 1, 1));
    assert_eq!(r.attempt_rating, AttemptRating::Easy);
    assert_eq!(r.next_attempt_date, Some(date(2024, 1, 2)));
}

#[test]
fn subsequent_attempt_scenario_hard_2024_02_01() {
    let prior = ProblemAttempt::new_attempt(42, AttemptRating::Easy, date(2024, 1, 1));
    let r = ProblemAttempt::subsequent_attempt(Some(prior), AttemptRating::Hard, date(2024, 2, 1))
        .unwrap();
    assert_eq!(r.problem_id, 42);
    assert_eq!(r.number_of_attempts, 2);
    assert_eq!(r.last_attempted, date(2024, 2, 1));
    assert_eq!(r.attempt_rating, AttemptRating::Hard);
    assert_eq!(r.next_attempt_date, Some(date(2024, 2, 2)));
}

#[test]
fn subsequent_attempt_increments_count_for_every_grade() {
    let mut r = ProblemAttempt::new_attempt(3, AttemptRating::Messy, date(2022, 3, 4));
    let mut expected: i64 = 1;
    for &g in ALL_RATINGS.iter() {
        let before = r.number_of_attempts;
        r.update_attempt(g, date(2022, 3, 5));
        expected += 1;
        assert_eq!(r.number_of_attempts, before + 1);
        assert_eq!(r.number_of_attempts, expected);
        assert_eq!(r.attempt_rating, g);
    }
}

#[test]
fn next_due_date_never_earlier_than_last_attempted() {
    for &g in ALL_RATINGS.iter() {
        let mut r = ProblemAttempt::new_attempt(1, g, date(2024, 12, 31));
        if let Some(nd) = r.next_attempt_date {
            assert!((nd.year, nd.month, nd.day) >= (r.last_attempted.year, r.last_attempted.month, r.last_attempted.day));
        }
        for &g2 in ALL_RATINGS.iter() {
            r.update_attempt(g2, date(2025, 2, 28));
            if let Some(nd) = r.next_attempt_date {
                assert!(
                    (nd.year, nd.month, nd.day)
                        >= (r.last_attempted.year, r.last_attempted.month, r.last_attempted.day)
                );
            }
        }
    }
}

#[test]
fn first_attempt_is_pure_across_calls() {
    let a = ProblemAttempt::new_attempt(9, AttemptRating::LongFail, date(2021, 6, 1));
    let b = ProblemAttempt::new_attempt(9, AttemptRating::LongFail, date(2021, 6, 1));
    assert_eq!(a, b);
}

#[test]
fn subsequent_attempt_on_absent_record_fails() {
    let r = ProblemAttempt::subsequent_attempt(None, AttemptRating::Easy, date(2024, 1, 1));
    assert_eq!(r, Err(SchedulerError::NoPriorAttempt));
}

#[test]
fn next_interval_is_constant_one_day() {
    for &g in ALL_RATINGS.iter() {
        assert_eq!(next_interval(g, 0), Some(1));
        assert_eq!(next_interval(g, 1), Some(1));
        assert_eq!(next_interval(g, 100), Some(1));
        assert_eq!(next_interval(g, i64::MAX), Some(1));
    }
}

#[test]
fn map_rating_maps_one_to_five() {
    assert_eq!(map_rating(1), Ok(AttemptRating::ShortFail));
    assert_eq!(map_rating(2), Ok(AttemptRating::LongFail));
    assert_eq!(map_rating(3), Ok(AttemptRating::Messy));
    assert_eq!(map_rating(4), Ok(AttemptRating::Hard));
    assert_eq!(map_rating(5), Ok(AttemptRating::Easy));
}

#[test]
fn map_rating_rejects_out_of_range_values() {
    assert_eq!(map_rating(0), Err(SchedulerError::InvalidGrade));
    assert_eq!(map_rating(6), Err(SchedulerError::InvalidGrade));
    assert_eq!(map_rating(255), Err(SchedulerError::InvalidGrade));
}
