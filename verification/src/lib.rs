//! Tournament performance-rating engine.
//!
//! Folds raw per-match player statistics into cumulative per-player records,
//! converts them into weighted sub-scores, shrinks each sub-score toward the
//! tournament-wide average (a small-sample correction keyed on games played),
//! expresses the result as an index relative to that average, and finally
//! assigns six mutually exclusive awards plus an ordered All-Tournament list.
//!
//! All score arithmetic is exact: weighted scores are integers in
//! thousandths of a score point, and every ratio (average, rating, index) is
//! an exact rational number, so the engine is deterministic on all inputs.

pub mod awards;
pub mod model;
pub mod rational;
pub mod scores;
pub mod stats;
pub mod web;
