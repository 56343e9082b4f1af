//! Problem-bank entries: raw imported rows that become catalog entries.

use vstd::prelude::*;

verus! {

use crate::problems::{LeetCodeDifficulty, Problem};

/// A raw entry from an imported problem bank. Its `url` names the problem
/// page; the numeric id is resolved by the caller (from the entry itself or
/// from an external lookup) before the entry becomes a catalog row.
#[derive(Debug)]
pub struct ProblemBankProblem {
    pub id: i64,
    pub order: i64,
    pub name: String,
    pub difficulty: Option<LeetCodeDifficulty>,
    pub week: Option<i64>,
    pub url: String,
}

impl ProblemBankProblem {
    /// Builds the catalog entry for this bank entry under the given id,
    /// carrying order, name, difficulty and week over unchanged.
    pub fn to_problem(&self, id: i64) -> (r: Problem)
        ensures
            r.id == id,
            r.order == self.order,
            r.name@ == self.name@,
            r.difficulty == self.difficulty,
            r.week == self.week,
    {
        Problem {
            id,
            order: self.order,
            name: self.name.clone(),
            difficulty: self.difficulty,
            week: self.week,
        }
    }
}

} // verus!
