//! The operators of the condition grammar.

use vstd::prelude::*;

verus! {

/// Connective used to fold conditions and to chain expressions.
#[derive(Clone, Copy, PartialEq, Eq, Structural, Debug)]
pub enum LogicalOperator {
    And,
    Or,
}

/// Relational operator of a condition. The string operators are defined for
/// `String` operands only (`Contains` also for membership in a `List`).
#[derive(Clone, Copy, PartialEq, Eq, Structural, Debug)]
pub enum RelationalOperator {
    Equals,
    NotEquals,
    LessThan,
    LessThanOrEquals,
    GreaterThan,
    GreaterThanOrEquals,
    Contains,
    StartsWith,
    EndsWith,
    MatchesRegex,
}

} // verus!
