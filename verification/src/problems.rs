//! Catalog entries: the read-only list of known practice problems.

use vstd::prelude::*;

verus! {

use crate::str_eq;

/// Difficulty tier of a catalog entry.
#[derive(Debug, Clone, Copy, PartialEq, Eq, Structural)]
pub enum LeetCodeDifficulty {
    Easy,
    Medium,
    Hard,
}

/// One catalog entry: id, display order, name, optional difficulty tier and
/// optional week grouping. Consumed read-only by the queries.
#[derive(Debug)]
pub struct Problem {
    pub id: i64,
    pub order: i64,
    pub name: String,
    pub difficulty: Option<LeetCodeDifficulty>,
    pub week: Option<i64>,
}

/// The stable text label under which a difficulty tier is persisted.
pub open spec fn spec_difficulty_text(d: LeetCodeDifficulty) -> Seq<char> {
    match d {
        LeetCodeDifficulty::Easy => "Easy"@,
        LeetCodeDifficulty::Medium => "Medium"@,
        LeetCodeDifficulty::Hard => "Hard"@,
    }
}

/// The difficulty tier a text label decodes to, if any.
pub open spec fn spec_difficulty_of_text(s: Seq<char>) -> Option<LeetCodeDifficulty> {
    if s == spec_difficulty_text(LeetCodeDifficulty::Easy) {
        Some(LeetCodeDifficulty::Easy)
    } else if s == spec_difficulty_text(LeetCodeDifficulty::Medium) {
        Some(LeetCodeDifficulty::Medium)
    } else if s == spec_difficulty_text(LeetCodeDifficulty::Hard) {
        Some(LeetCodeDifficulty::Hard)
    } else {
        None
    }
}

/// Encodes a difficulty tier as its stable text label.
pub fn difficulty_to_text(d: LeetCodeDifficulty) -> (t: String)
    ensures
        t@ == spec_difficulty_text(d),
{
    match d {
        LeetCodeDifficulty::Easy => "Easy".to_owned(),
        LeetCodeDifficulty::Medium => "Medium".to_owned(),
        LeetCodeDifficulty::Hard => "Hard".to_owned(),
    }
}

/// Decodes a stored text label back into a difficulty tier; an unknown
/// label decodes to nothing.
pub fn difficulty_from_text(s: &str) -> (r: Option<LeetCodeDifficulty>)
    ensures
        r == spec_difficulty_of_text(s@),
{
    if str_eq(s, "Easy") {
        Some(LeetCodeDifficulty::Easy)
    } else if str_eq(s, "Medium") {
        Some(LeetCodeDifficulty::Medium)
    } else if str_eq(s, "Hard") {
        Some(LeetCodeDifficulty::Hard)
    } else {
        None
    }
}

/// The persisted difficulty encoding is bidirectional: every tier's text
/// label decodes back to that same tier.
pub proof fn lemma_difficulty_text_round_trip(d: LeetCodeDifficulty)
    ensures
        spec_difficulty_of_text(spec_difficulty_text(d)) == Some(d),
{
    reveal_strlit("Easy");
    reveal_strlit("Medium");
    reveal_strlit("Hard");
    assert("Easy"@.len() == 4 && "Medium"@.len() == 6 && "Hard"@.len() == 4);
    assert("Hard"@ != "Easy"@) by {
        assert("Hard"@[0] == 'H' && "Easy"@[0] == 'E');
    }
}

/// Field-wise equality of catalog entries (names compared as character
/// sequences).
pub open spec fn problem_eq(a: Problem, b: Problem) -> bool {
    &&& a.id == b.id
    &&& a.order == b.order
    &&& a.name@ == b.name@
    &&& a.difficulty == b.difficulty
    &&& a.week == b.week
}

impl Clone for Problem {
    /// A clone carries every field over unchanged.
    fn clone(&self) -> (r: Self)
        ensures
            problem_eq(r, *self),
    {
        Problem {
            id: self.id,
            order: self.order,
            name: self.name.clone(),
            difficulty: self.difficulty,
            week: self.week,
        }
    }
}

} // verus!
