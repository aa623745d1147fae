//! What happens in a match, as the host may publish it.

use vstd::prelude::*;

verus! {

/// A state change of a match.  The engine decides which events a call
/// gives rise to; publishing them is the host's business.
#[derive(Debug)]
pub enum Event<'a> {
    /// A match was created.
    MatchCreated { id: &'a str },
    /// A participant placed a mark.
    MoveMade { id: &'a str, x: u8, y: u8, player: &'a str },
    /// A participant completed a line.
    GameWon { id: &'a str, winner: &'a str },
    /// The board filled up with no line completed.
    GameTied { id: &'a str },
    /// The match accepts no further move.
    MatchEnded { id: &'a str },
}

} // verus!
