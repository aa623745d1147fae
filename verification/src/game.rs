//! The match: a turn-based state machine over one board.
//!
//! A match starts in progress with the first participant to move.  Each
//! accepted move either wins the match, ties it, or hands the turn to the
//! other participant.  Won and tied matches accept no further move.

use vstd::prelude::*;

use crate::board::{Board, Cell, BOARD_SIZE};
use crate::error::GameError;
use crate::players::PublicKey;

verus! {

/// Where a match stands.
pub enum MatchState {
    /// Moves are still accepted.
    InProgress,
    /// The given participant completed a line.
    Won(PublicKey),
    /// The board filled up with no line completed.
    Tied,
}

/// A match between two participants on a board of the standard size.
#[derive(Debug, Clone)]
pub struct Match {
    /// The identifier of the match.
    pub id: String,
    /// The first participant, who plays `X`.
    pub player1: PublicKey,
    /// The second participant, who plays `O`.
    pub player2: PublicKey,
    /// The participant whose turn it is.
    pub turn: PublicKey,
    /// The board.
    pub board: Board,
    /// The winner, once there is one.
    pub winner: Option<PublicKey>,
}

impl Match {
    /// The match is well formed: its board has the standard size and is
    /// strictly encoded, the turn is a participant's, and so is the win, if
    /// there is one.
    pub open spec fn wf(&self) -> bool {
        &&& self.board.wf(BOARD_SIZE)
        &&& self.board.strict()
        &&& self.is_participant(self.turn)
        &&& self.winner matches Some(w) ==> self.is_participant(w)
    }

    /// Whether `player` is one of the two participants.
    pub open spec fn is_participant(&self, player: PublicKey) -> bool {
        player == self.player1 || player == self.player2
    }

    /// The participant who is not `player`.
    pub open spec fn opponent_of(&self, player: PublicKey) -> PublicKey {
        if player == self.player1 {
            self.player2
        } else {
            self.player1
        }
    }

    /// The mark of the participant whose turn it is.
    pub open spec fn current_mark(&self) -> Cell {
        if self.turn == self.player1 {
            Cell::X
        } else {
            Cell::O
        }
    }

    /// Where the match stands.
    pub open spec fn state(&self) -> MatchState {
        match self.winner {
            Some(w) => MatchState::Won(w),
            None => if self.board.full(BOARD_SIZE as int) {
                MatchState::Tied
            } else {
                MatchState::InProgress
            },
        }
    }

    /// The match is won or tied.
    pub open spec fn finished(&self) -> bool {
        self.winner is Some || self.board.full(BOARD_SIZE as int)
    }

    /// Why the move of `player` to column `x`, row `y` is refused, if it is.
    /// The checks are made in this order, and the first that fails decides.
    pub open spec fn rejection(&self, player: PublicKey, x: u8, y: u8) -> Option<GameError> {
        if self.finished() {
            Some(GameError::Finished)
        } else if !self.is_participant(player) {
            Some(GameError::Forbidden("not a player"))
        } else if player != self.turn {
            Some(GameError::Forbidden("not your turn"))
        } else if x >= BOARD_SIZE || y >= BOARD_SIZE {
            Some(GameError::Invalid("coordinates out of bounds"))
        } else if self.board.at(BOARD_SIZE as int, x as int, y as int) != Cell::Empty {
            Some(GameError::Invalid("cell already occupied"))
        } else {
            None
        }
    }

    /// `next` is this match after the accepted move of `player` to column
    /// `x`, row `y`: the mover's mark is on the board, and exactly one of
    /// three things has happened: the mover has won, the match is tied, or
    /// the turn has passed to the other participant.
    pub open spec fn moves_to(&self, next: Match, player: PublicKey, x: u8, y: u8) -> bool {
        &&& next.id == self.id
        &&& next.player1 == self.player1
        &&& next.player2 == self.player2
        &&& next.board.wf(BOARD_SIZE)
        &&& next.board.0@ == self.board.0@.update(
            Board::index_of(BOARD_SIZE as int, x as int, y as int),
            self.current_mark().encoding(),
        )
        &&& next.board@ == self.board@.update(
            Board::index_of(BOARD_SIZE as int, x as int, y as int),
            self.current_mark(),
        )
        &&& if next.board.winner(BOARD_SIZE as int) is Some {
            next.winner == Some(player) && next.turn == self.turn
        } else if next.board.full(BOARD_SIZE as int) {
            next.winner == self.winner && next.turn == self.turn
        } else {
            next.winner == self.winner && next.turn == self.opponent_of(player)
        }
    }

    /// Won and tied matches are terminal: whoever moves, and wherever, the
    /// move is refused as finished.
    pub proof fn lemma_finished_match_refuses(&self, player: PublicKey, x: u8, y: u8)
        requires
            !(self.state() is InProgress),
        ensures
            self.rejection(player, x, y) == Some(GameError::Finished),
    {
    }

    /// The turn alternates strictly: after an accepted move that does not
    /// end the match, it is the turn of the participant who did not just
    /// move.
    pub proof fn lemma_turn_alternates(&self, next: Match, player: PublicKey, x: u8, y: u8)
        requires
            self.rejection(player, x, y) is None,
            self.moves_to(next, player, x, y),
            !next.finished(),
        ensures
            player == self.turn,
            next.turn == self.opponent_of(player),
            self.player1 != self.player2 ==> next.turn != player && next.is_participant(next.turn),
    {
    }

    /// Exactly one of three things happens on an accepted move: the mover
    /// wins, the match is tied, or the turn passes on.  A match that was well
    /// formed stays so.
    pub proof fn lemma_move_outcome(&self, next: Match, player: PublicKey, x: u8, y: u8)
        requires
            self.wf(),
            self.rejection(player, x, y) is None,
            self.moves_to(next, player, x, y),
        ensures
            next.wf(),
            match next.state() {
                MatchState::Won(winner) => winner == player && next.turn == self.turn
                    && next.board.winner(BOARD_SIZE as int) is Some,
                MatchState::Tied => next.turn == self.turn && next.board.winner(BOARD_SIZE as int)
                    is None,
                MatchState::InProgress => next.turn == self.opponent_of(player),
            },
    {
    }

    /// A new match: an empty board, the first participant to move, no
    /// winner.
    pub fn new(id: String, player1: PublicKey, player2: PublicKey) -> (r: Match)
        ensures
            r.id == id,
            r.player1 == player1,
            r.player2 == player2,
            r.turn == player1,
            r.winner is None,
            r.wf(),
            forall|i: int| 0 <= i < r.board@.len() ==> r.board@[i] == Cell::Empty,
            r.state() == MatchState::InProgress,
    {
        let turn = player1.clone();
        let r = Match {
            id,
            player1,
            player2,
            turn,
            board: Board::new_zeroed(BOARD_SIZE),
            winner: None,
        };
        proof {
            Board::lemma_index_of(BOARD_SIZE as int, 0, 0);
            assert(r.board.at(BOARD_SIZE as int, 0, 0) == Cell::Empty);
        }
        r
    }

    /// Whether `player` is one of the two participants.
    pub fn is_player(&self, player: &PublicKey) -> (r: bool)
        ensures
            r == self.is_participant(*player),
    {
        *player == self.player1 || *player == self.player2
    }

    /// Whether the match is won or tied.
    pub fn is_finished(&self) -> (r: bool)
        requires
            self.board.wf(BOARD_SIZE),
        ensures
            r == self.finished(),
            r == !(self.state() is InProgress),
    {
        self.winner.is_some() || self.board.is_full(BOARD_SIZE)
    }

    /// The mark of the participant whose turn it is: `X` for the first
    /// participant, `O` for the second.
    pub fn get_current_player_symbol(&self) -> (r: Cell)
        ensures
            r == self.current_mark(),
    {
        if self.turn == self.player1 {
            Cell::X
        } else {
            Cell::O
        }
    }

    /// Applies the move of `player` to column `x`, row `y`.
    ///
    /// A refused move leaves the match unchanged.  An accepted move puts the
    /// mover's mark on the board; then the mover has won, or the match is
    /// tied, or the turn passes to the other participant.
    pub fn make_move(&mut self, player: PublicKey, x: u8, y: u8) -> (r: Result<(), GameError>)
        requires
            old(self).board.wf(BOARD_SIZE),
        ensures
            match old(self).rejection(player, x, y) {
                Some(e) => r == Err::<(), GameError>(e) && *final(self) == *old(self),
                None => r is Ok && old(self).moves_to(*final(self), player, x, y),
            },
            r is Err ==> *final(self) == *old(self),
            r is Ok && !final(self).finished() ==> final(self).turn == old(self).opponent_of(
                player,
            ),
            old(self).wf() ==> final(self).wf(),
    {
        if self.is_finished() {
            return Err(GameError::Finished);
        }
        if !self.is_player(&player) {
            return Err(GameError::Forbidden("not a player"));
        }
        if player != self.turn {
            return Err(GameError::Forbidden("not your turn"));
        }
        if x >= BOARD_SIZE || y >= BOARD_SIZE {
            return Err(GameError::Invalid("coordinates out of bounds"));
        }
        if self.board.get(BOARD_SIZE, x, y) != Cell::Empty {
            return Err(GameError::Invalid("cell already occupied"));
        }
        let symbol: Cell = self.get_current_player_symbol();
        self.board.set(BOARD_SIZE, x, y, symbol);

        if self.board.check_winner(BOARD_SIZE).is_some() {
            self.winner = Some(player);
        } else if self.board.is_full(BOARD_SIZE) {
            self.winner = None;
        } else {
            self.turn = if self.turn == self.player1 {
                self.player2.clone()
            } else {
                self.player1.clone()
            };
        }
        Ok(())
    }
}

} // verus!
