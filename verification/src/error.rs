//! The error taxonomy of the engine.

use vstd::prelude::*;
use vstd::string::StringExecFns;

verus! {

/// Why an operation was refused.
///
/// Every check fails fast: the first violated rule decides the error, and
/// nothing is aggregated or retried.
#[derive(Debug)]
pub enum GameError {
    /// The referenced match does not exist under the given identifier.
    NotFound(String),
    /// Malformed input: a coordinate off the board, an occupied cell, a
    /// placement that breaks a rule.
    Invalid(&'static str),
    /// The caller lacks authority: not a participant, or not their turn.
    Forbidden(&'static str),
    /// The match has already reached a terminal state.
    Finished,
}

impl GameError {
    /// The text of the error, as it is shown to a caller.
    pub open spec fn text(&self) -> Seq<char> {
        match self {
            GameError::NotFound(what) => "not found: "@ + what@,
            GameError::Invalid(why) => "invalid input: "@ + why@,
            GameError::Forbidden(why) => "forbidden: "@ + why@,
            GameError::Finished => "already finished"@,
        }
    }

    /// The text of the error, as it is shown to a caller.
    pub fn message(&self) -> (r: String)
        ensures
            r@ == self.text(),
    {
        match self {
            GameError::NotFound(what) => String::from_str("not found: ").concat(what.as_str()),
            GameError::Invalid(why) => String::from_str("invalid input: ").concat(why),
            GameError::Forbidden(why) => String::from_str("forbidden: ").concat(why),
            GameError::Finished => String::from_str("already finished"),
        }
    }
}

} // verus!
