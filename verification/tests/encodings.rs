use lc_tracking::SchedulerError;
use lc_tracking::problem_attempts::{AttemptRating, rating_from_text, rating_to_text};
use lc_tracking::problem_bank::ProblemBankProblem;
use lc_tracking::problems::{LeetCodeDifficulty, difficulty_from_text, difficulty_to_text};
use lc_tracking::str_eq;

#[test]
fn rating_text_labels_are_stable() {
    assert_eq!(rating_to_text(AttemptRating::Easy), "Easy");
    assert_eq!(rating_to_text(AttemptRating::Hard), "Hard");
    assert_eq!(rating_to_text(AttemptRating::Messy), "Messy");
    assert_eq!(rating_to_text(AttemptRating::LongFail), "LongFail");
    assert_eq!(rating_to_text(AttemptRating::ShortFail), "ShortFail");
}

#[test]
fn rating_text_round_trips() {
    let all = [
        AttemptRating::Easy,
        AttemptRating::Hard,
        AttemptRating::Messy,
        AttemptRating::LongFail,
        AttemptRating::ShortFail,
    ];
    for &r in all.iter() {
        assert_eq!(rating_from_text(&rating_to_text(r)), Ok(r));
    }
}

#[test]
fn unknown_rating_text_is_invalid_grade() {
    assert_eq!(rating_from_text("easy"), Err(SchedulerError::InvalidGrade));
    assert_eq!(rating_from_text(""), Err(SchedulerError::InvalidGrade));
    assert_eq!(rating_from_text("Medium"), Err(SchedulerError::InvalidGrade));
}

#[test]
fn difficulty_text_round_trips() {
    let all = [LeetCodeDifficulty::Easy, LeetCodeDifficulty::Medium, LeetCodeDifficulty::Hard];
    for &d in all.iter() {
        assert_eq!(difficulty_from_text(&difficulty_to_text(d)), Some(d));
    }
    assert_eq!(difficulty_from_text("Extreme"), None);
}

#[test]
fn str_eq_compares_by_characters() {
    assert!(str_eq("abc", "abc"));
    assert!(!str_eq("abc", "abd"));
    assert!(!str_eq("abc", "ab"));
    assert!(str_eq("", ""));
}

#[test]
fn to_problem_carries_fields_and_uses_the_given_id() {
    let entry = ProblemBankProblem {
        id: 101,
        order: 7,
        name: String::from("Two Sum"),
        difficulty: Some(LeetCodeDifficulty::Easy),
        week: Some(1),
        url: String::from("https://example.invalid/two-sum"),
    };
    let p = entry.to_problem(55);
    assert_eq!(p.id, 55);
    assert_eq!(p.order, 7);
    assert_eq!(p.name, "Two Sum");
    assert_eq!(p.difficulty, Some(LeetCodeDifficulty::Easy));
    assert_eq!(p.week, Some(1));

    let q = entry.to_problem(entry.id);
    assert_eq!(q.id, 101);
}
