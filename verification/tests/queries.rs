use lc_tracking::dates::Date;
use lc_tracking::problem_attempts::{AttemptRating, ProblemAttempt};
use lc_tracking::problems::Problem;
use lc_tracking::queries::{has_attempt, next_unattempted_problem, rating_counts};

fn catalog_entry(id: i64, order: i64) -> Problem {
    Problem { id, order, name: format!("problem-{id}"), difficulty: None, week: None }
}

fn attempt(problem_id: i64) -> ProblemAttempt {
    ProblemAttempt::new_attempt(problem_id, AttemptRating::Easy, Date { year: 2024, month: 1, day: 1 })
}

#[test]
fn next_unattempted_picks_the_gap() {
    let problems = vec![catalog_entry(1, 1), catalog_entry(2, 2), catalog_entry(3, 3)];
    let progress = vec![attempt(1), attempt(3)];
    let next = next_unattempted_problem(&problems, &progress).unwrap();
    assert_eq!(next.id, 2);
    assert_eq!(next.order, 2);
}

#[test]
fn next_unattempted_is_none_when_all_attempted() {
    let problems = vec![catalog_entry(1, 1), catalog_entry(2, 2), catalog_entry(3, 3)];
    let progress = vec![attempt(1), attempt(2), attempt(3)];
    assert!(next_unattempted_problem(&problems, &progress).is_none());
}

#[test]
fn next_unattempted_follows_order_not_position() {
    let problems = vec![catalog_entry(10, 5), catalog_entry(11, 2), catalog_entry(12, 9)];
    let progress = vec![attempt(12)];
    let next = next_unattempted_problem(&problems, &progress).unwrap();
    assert_eq!(next.id, 11);
}

#[test]
fn next_unattempted_on_empty_catalog_is_none() {
    let problems: Vec<Problem> = Vec::new();
    let progress = vec![attempt(1)];
    assert!(next_unattempted_problem(&problems, &progress).is_none());
}

#[test]
fn next_unattempted_with_no_progress_is_smallest_order() {
    let problems = vec![catalog_entry(4, 40), catalog_entry(5, 30)];
    let progress: Vec<ProblemAttempt> = Vec::new();
    let next = next_unattempted_problem(&problems, &progress).unwrap();
    assert_eq!(next.id, 5);
}

#[test]
fn has_attempt_finds_recorded_problems() {
    let progress = vec![attempt(1), attempt(3)];
    assert!(has_attempt(&progress, 1));
    assert!(has_attempt(&progress, 3));
    assert!(!has_attempt(&progress, 2));
}

#[test]
fn rating_counts_tallies_each_rating() {
    let d = Date { year: 2024, month: 5, day: 5 };
    let progress = vec![
        ProblemAttempt::new_attempt(1, AttemptRating::Easy, d),
        ProblemAttempt::new_attempt(2, AttemptRating::Easy, d),
        ProblemAttempt::new_attempt(3, AttemptRating::Messy, d),
        ProblemAttempt::new_attempt(4, AttemptRating::ShortFail, d),
    ];
    let counts = rating_counts(&progress);
    assert_eq!(counts.easy, 2);
    assert_eq!(counts.hard, 0);
    assert_eq!(counts.messy, 1);
    assert_eq!(counts.long_fail, 0);
    assert_eq!(counts.short_fail, 1);
}

#[test]
fn rating_counts_of_nothing_is_zero() {
    let progress: Vec<ProblemAttempt> = Vec::new();
    let counts = rating_counts(&progress);
    assert_eq!(counts.easy + counts.hard + counts.messy + counts.long_fail + counts.short_fail, 0);
}
