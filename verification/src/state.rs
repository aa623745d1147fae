//! The application state: at most one match at a time, and the calls that
//! a host makes on behalf of a participant.
//!
//! The host supplies what only it knows--the bytes that name the caller
//! and the current time--and publishes the events that a call reports.
//! Everything decided here is decided from those plain values.

use vstd::prelude::*;
use vstd::string::StringExecFns;

use crate::base58::{base58_decoded, base58_encoded};
use crate::board::{Cell, BOARD_SIZE};
use crate::error::GameError;
use crate::events::Event;
use crate::game::{Match, MatchState};
use crate::players::PublicKey;

verus! {

/// The board of a match, as it is handed to a caller: its size and its
/// cells, one byte each, row-major.
#[derive(Debug, Clone)]
pub struct BoardView {
    /// The side length of the board.
    pub size: u8,
    /// The encoded cells.
    pub board: Vec<u8>,
}

/// What an accepted move led to.
#[derive(Debug)]
pub struct MoveReport<'a> {
    /// `"win"`, `"tie"` or `"continue"`.
    pub outcome: String,
    /// The events of the move, in the order in which they are published.
    pub events: Vec<Event<'a>>,
}

/// The decimal digit of a number below ten.
pub open spec fn digit(d: nat) -> char {
    if d == 0 {
        '0'
    } else if d == 1 {
        '1'
    } else if d == 2 {
        '2'
    } else if d == 3 {
        '3'
    } else if d == 4 {
        '4'
    } else if d == 5 {
        '5'
    } else if d == 6 {
        '6'
    } else if d == 7 {
        '7'
    } else if d == 8 {
        '8'
    } else {
        '9'
    }
}

/// A number in decimal, without leading zeros.
pub open spec fn decimal(n: nat) -> Seq<char>
    decreases n,
{
    if n < 10 {
        seq![digit(n)]
    } else {
        decimal(n / 10).push(digit(n % 10))
    }
}

/// The identifier of the match created at time `now` as number `nonce`.
pub open spec fn match_id_text(now: u64, nonce: u64) -> Seq<char> {
    "match-"@ + decimal(now as nat) + "-"@ + decimal(nonce as nat)
}

/// The text of a mark in events: `"X"` for the first participant's,
/// `"O"` for the second's.
pub open spec fn symbol_of(game: Match, player: PublicKey) -> &'static str {
    if player == game.player1 {
        "X"
    } else {
        "O"
    }
}

/// The outcome of a move that left the match in the given state.
pub open spec fn outcome_text(after: MatchState) -> Seq<char> {
    match after {
        MatchState::Won(_) => "win"@,
        MatchState::Tied => "tie"@,
        MatchState::InProgress => "continue"@,
    }
}

/// The events of the move of `mover` to column `x`, row `y`, which left
/// the match as `after`: the move itself, then the win or the tie and the
/// end of the match, if the move brought either.
pub open spec fn move_events<'a>(id: &'a str, x: u8, y: u8, mover: PublicKey, after: Match) -> Seq<
    Event<'a>,
> {
    let made = Event::MoveMade { id, x, y, player: symbol_of(after, mover) };
    match after.state() {
        MatchState::Won(winner) => seq![
            made,
            Event::GameWon { id, winner: symbol_of(after, winner) },
            Event::MatchEnded { id },
        ],
        MatchState::Tied => seq![made, Event::GameTied { id }, Event::MatchEnded { id }],
        MatchState::InProgress => seq![made],
    }
}

/// One decimal digit, as text.
fn digit_text(d: u8) -> (r: &'static str)
    requires
        d < 10,
    ensures
        r@ == seq![digit(d as nat)],
{
    proof {
        reveal_strlit("0");
        reveal_strlit("1");
        reveal_strlit("2");
        reveal_strlit("3");
        reveal_strlit("4");
        reveal_strlit("5");
        reveal_strlit("6");
        reveal_strlit("7");
        reveal_strlit("8");
        reveal_strlit("9");
    }
    let r: &'static str = match d {
        0 => "0",
        1 => "1",
        2 => "2",
        3 => "3",
        4 => "4",
        5 => "5",
        6 => "6",
        7 => "7",
        8 => "8",
        _ => "9",
    };
    assert(r@ =~= seq![digit(d as nat)]);
    r
}

/// Appends a number in decimal to a text.
fn append_decimal(text: &mut String, n: u64)
    ensures
        final(text)@ == old(text)@ + decimal(n as nat),
    decreases n,
{
    if n >= 10 {
        append_decimal(text, n / 10);
    }
    text.append(digit_text((n % 10) as u8));
    assert(text@ =~= old(text)@ + decimal(n as nat));
}

/// Whether a text and a string hold the same characters.
fn same_text(a: &str, b: &String) -> (r: bool)
    ensures
        r == (a@ == b@),
{
    String::from_str(a) == *b
}

/// The state of the application: a counter for match identifiers, the time
/// of creation, and the active match, if there is one.
#[derive(Debug)]
pub struct TicTacToeState {
    id_nonce: u64,
    created_ms: u64,
    active_match: Option<Match>,
}

impl TicTacToeState {
    /// How many match identifiers have been given out.
    pub closed spec fn nonce(&self) -> u64 {
        self.id_nonce
    }

    /// When the state was created.
    pub closed spec fn created(&self) -> u64 {
        self.created_ms
    }

    /// The active match, if there is one.
    pub closed spec fn active(&self) -> Option<Match> {
        self.active_match
    }

    /// The state is well formed: the board of the active match, if there is
    /// one, has the standard size.
    pub open spec fn wf(&self) -> bool {
        self.active() matches Some(game) ==> game.board.wf(BOARD_SIZE)
    }

    /// The state at time `now`: no match yet.
    pub fn init(now: u64) -> (r: TicTacToeState)
        ensures
            r.wf(),
            r.nonce() == 0,
            r.created() == now,
            r.active() is None,
    {
        TicTacToeState { id_nonce: 0, created_ms: now, active_match: None }
    }

    /// The state made of what was stored of it.
    pub fn from_parts(id_nonce: u64, created_ms: u64, active_match: Option<Match>) -> (r:
        TicTacToeState)
        ensures
            r.nonce() == id_nonce,
            r.created() == created_ms,
            r.active() == active_match,
    {
        TicTacToeState { id_nonce, created_ms, active_match }
    }

    /// What is stored of the state: the counter, the time of creation, and
    /// the active match.
    pub fn into_parts(self) -> (r: (u64, u64, Option<Match>))
        ensures
            r == (self.nonce(), self.created(), self.active()),
    {
        (self.id_nonce, self.created_ms, self.active_match)
    }

    /// The next match identifier, at time `now`.
    fn next_id(&mut self, now: u64) -> (r: String)
        ensures
            final(self).nonce() == old(self).nonce().wrapping_add(1),
            final(self).created() == old(self).created(),
            final(self).active() == old(self).active(),
            r@ == match_id_text(now, final(self).nonce()),
    {
        self.id_nonce = self.id_nonce.wrapping_add(1);
        let mut id = String::from_str("match-");
        append_decimal(&mut id, now);
        id.append("-");
        append_decimal(&mut id, self.id_nonce);
        id
    }

    /// `game` is a match as it is created: the given identifier and
    /// participants, an empty board, the first participant to move.
    pub open spec fn is_new_match(
        game: Match,
        id: Seq<char>,
        player1: PublicKey,
        player2: PublicKey,
    ) -> bool {
        &&& game.id@ == id
        &&& game.player1 == player1
        &&& game.player2 == player2
        &&& game.turn == player1
        &&& game.winner is None
        &&& game.wf()
        &&& forall|i: int| 0 <= i < game.board@.len() ==> game.board@[i] == Cell::Empty
    }

    /// Why a match cannot be created, if it cannot.  The checks are made in
    /// this order: no unfinished match is active; the caller's bytes make an
    /// identity; the opponent is an identity; the two differ.
    pub open spec fn creation_fault(
        &self,
        executor_id: Seq<u8>,
        opponent: Result<PublicKey, GameError>,
    ) -> Option<GameError> {
        if self.active() matches Some(game) && !game.finished() {
            Some(GameError::Invalid("another match is active"))
        } else {
            match PublicKey::made(executor_id, "executor id length") {
                Err(e) => Some(e),
                Ok(first) => match opponent {
                    Err(e) => Some(e),
                    Ok(second) => if first == second {
                        Some(GameError::Invalid("players must differ"))
                    } else {
                        None
                    },
                },
            }
        }
    }

    /// `r` is what creating a match at time `now` gives and `next` the state
    /// that it leaves, where the caller is named by `executor_id` and
    /// `opponent` is what parsing the opponent's text gave.
    ///
    /// A refused call changes nothing.  An accepted call uses up one
    /// identifier and makes the new match the active one.
    pub open spec fn creates(
        &self,
        next: TicTacToeState,
        r: Result<String, GameError>,
        executor_id: Seq<u8>,
        opponent: Result<PublicKey, GameError>,
        now: u64,
    ) -> bool {
        match self.creation_fault(executor_id, opponent) {
            Some(e) => r == Err::<String, GameError>(e) && next == *self,
            None => {
                &&& r matches Ok(id)
                &&& next.created() == self.created()
                &&& next.nonce() == self.nonce().wrapping_add(1)
                &&& id@ == match_id_text(now, next.nonce())
                &&& next.active() matches Some(game)
                &&& TicTacToeState::is_new_match(
                    game,
                    id@,
                    PublicKey::made(executor_id, "executor id length")->Ok_0,
                    opponent->Ok_0,
                )
            },
        }
    }

    /// Creates a match between the caller, named by `executor_id`, and the
    /// opponent, given as what parsing their text gave, at time `now`: what
    /// [`TicTacToeState::create_match`] does once the text is parsed.
    pub fn create_match_with(
        &mut self,
        executor_id: &[u8],
        opponent: Result<PublicKey, GameError>,
        now: u64,
    ) -> (r: Result<String, GameError>)
        requires
            old(self).wf(),
        ensures
            final(self).wf(),
            old(self).creates(*final(self), r, executor_id@, opponent, now),
    {
        let busy: bool = match &self.active_match {
            Some(game) => !game.is_finished(),
            None => false,
        };
        if busy {
            return Err(GameError::Invalid("another match is active"));
        }
        let player1 = match PublicKey::from_executor_id(executor_id) {
            Ok(key) => key,
            Err(e) => {
                return Err(e);
            },
        };
        let player2 = match opponent {
            Ok(key) => key,
            Err(e) => {
                return Err(e);
            },
        };
        if player1 == player2 {
            return Err(GameError::Invalid("players must differ"));
        }
        let id = self.next_id(now);
        self.active_match = Some(Match::new(id.clone(), player1, player2));
        Ok(id)
    }

    /// Creates a match between the caller, named by `executor_id`, and the
    /// participant whose Base58 text is `player2`, at time `now`.
    ///
    /// On success the new match replaces the one before it, which was
    /// finished, and its identifier is returned: the host publishes
    /// [`Event::MatchCreated`] with it.  A refused call changes nothing.
    pub fn create_match(&mut self, executor_id: &[u8], player2: &str, now: u64) -> (r: Result<
        String,
        GameError,
    >)
        requires
            old(self).wf(),
        ensures
            final(self).wf(),
            old(self).creates(
                *final(self),
                r,
                executor_id@,
                PublicKey::parsed(base58_decoded(player2@)),
                now,
            ),
    {
        self.create_match_with(executor_id, PublicKey::from_base58(player2), now)
    }

    /// `r` is what looking up the match `match_id` gives where the lookup
    /// fails: `Invalid` where no match is active, `NotFound` with the
    /// identifier where the active match has another.
    pub open spec fn lookup_failed<T>(&self, match_id: Seq<char>, r: Result<T, GameError>) -> bool {
        match self.active() {
            None => r matches Err(GameError::Invalid(why)) && why == "no active match",
            Some(game) => game.id@ != match_id && (r matches Err(GameError::NotFound(what))
                && what@ == match_id),
        }
    }

    /// Applies the move of the caller named by `executor_id` to column `x`,
    /// row `y` of the match `match_id`.
    ///
    /// The call is refused where no match is active, where the active match
    /// has another identifier, where the caller's bytes make no identity, and
    /// where the match refuses the move; a refused call changes nothing.  An
    /// accepted move is reported with its outcome and the events that the
    /// host publishes.
    pub fn make_move<'a>(&mut self, executor_id: &[u8], match_id: &'a str, x: u8, y: u8) -> (r:
        Result<MoveReport<'a>, GameError>)
        requires
            old(self).wf(),
        ensures
            final(self).wf(),
            (old(self).active() matches Some(before) && before.wf()) ==> (final(self).active()
                matches Some(after) && after.wf()),
            final(self).nonce() == old(self).nonce(),
            final(self).created() == old(self).created(),
            r is Err ==> *final(self) == *old(self),
            match old(self).active() {
                Some(before) if before.id@ == match_id@ => match PublicKey::made(
                    executor_id@,
                    "executor id length",
                ) {
                    Err(e) => r == Err::<MoveReport<'a>, GameError>(e),
                    Ok(caller) => match before.rejection(caller, x, y) {
                        Some(e) => r == Err::<MoveReport<'a>, GameError>(e),
                        None => {
                            &&& r matches Ok(report)
                            &&& final(self).active() matches Some(after)
                            &&& before.moves_to(after, caller, x, y)
                            &&& report.outcome@ == outcome_text(after.state())
                            &&& report.events@ == move_events(match_id, x, y, caller, after)
                        },
                    },
                },
                _ => old(self).lookup_failed(match_id@, r),
            },
    {
        let mut game = match self.active_match.take() {
            None => {
                return Err(GameError::Invalid("no active match"));
            },
            Some(game) => game,
        };
        if !same_text(match_id, &game.id) {
            self.active_match = Some(game);
            return Err(GameError::NotFound(String::from_str(match_id)));
        }
        let caller = match PublicKey::from_executor_id(executor_id) {
            Ok(key) => key,
            Err(e) => {
                self.active_match = Some(game);
                return Err(e);
            },
        };
        match game.make_move(caller.clone(), x, y) {
            Ok(()) => {},
            Err(e) => {
                self.active_match = Some(game);
                return Err(e);
            },
        }
        let player_symbol: &'static str = if caller == game.player1 {
            "X"
        } else {
            "O"
        };
        let mut events: Vec<Event<'a>> = Vec::new();
        events.push(Event::MoveMade { id: match_id, x, y, player: player_symbol });
        let outcome: &'static str = match &game.winner {
            Some(winner) => {
                let winner_symbol: &'static str = if *winner == game.player1 {
                    "X"
                } else {
                    "O"
                };
                events.push(Event::GameWon { id: match_id, winner: winner_symbol });
                events.push(Event::MatchEnded { id: match_id });
                "win"
            },
            None => if game.board.is_full(BOARD_SIZE) {
                events.push(Event::GameTied { id: match_id });
                events.push(Event::MatchEnded { id: match_id });
                "tie"
            } else {
                "continue"
            },
        };
        assert(events@ =~= move_events(match_id, x, y, caller, game));
        self.active_match = Some(game);
        Ok(MoveReport { outcome: String::from_str(outcome), events })
    }

    /// The board of the match `match_id`.
    pub fn get_board(&self, match_id: &str) -> (r: Result<BoardView, GameError>)
        ensures
            match self.active() {
                Some(game) if game.id@ == match_id@ => {
                    &&& r matches Ok(view)
                    &&& view.size == BOARD_SIZE
                    &&& view.board@ == game.board.0@
                },
                _ => self.lookup_failed(match_id@, r),
            },
    {
        let game = match &self.active_match {
            None => {
                return Err(GameError::Invalid("no active match"));
            },
            Some(game) => game,
        };
        if !same_text(match_id, &game.id) {
            return Err(GameError::NotFound(String::from_str(match_id)));
        }
        Ok(BoardView { size: BOARD_SIZE, board: game.board.clone().0 })
    }

    /// The identifiers of all matches: that of the active match, if there is
    /// one.
    pub fn get_matches(&self) -> (r: Result<Vec<String>, GameError>)
        ensures
            r matches Ok(ids) && match self.active() {
                Some(game) => ids@.len() == 1 && ids@[0]@ == game.id@,
                None => ids@.len() == 0,
            },
    {
        let mut ids: Vec<String> = Vec::new();
        match &self.active_match {
            Some(game) => {
                ids.push(game.id.clone());
            },
            None => {},
        }
        Ok(ids)
    }

    /// The identifier of the active match, if there is one.
    pub fn get_active_match_id(&self) -> (r: Result<Option<String>, GameError>)
        ensures
            r matches Ok(found) && match self.active() {
                Some(game) => found matches Some(id) && id@ == game.id@,
                None => found is None,
            },
    {
        match &self.active_match {
            Some(game) => Ok(Some(game.id.clone())),
            None => Ok(None),
        }
    }

    /// The Base58 text of the participant whose turn it is in the active
    /// match, if there is one.
    pub fn get_current_turn(&self) -> (r: Result<Option<String>, GameError>)
        ensures
            r matches Ok(found) && match self.active() {
                Some(game) => found matches Some(text) && text@ == base58_encoded(game.turn.0@),
                None => found is None,
            },
    {
        match &self.active_match {
            Some(game) => Ok(Some(game.turn.to_base58())),
            None => Ok(None),
        }
    }

    /// The Base58 text of the caller named by `executor_id`.
    pub fn get_current_user(&self, executor_id: &[u8]) -> (r: Result<String, GameError>)
        ensures
            match PublicKey::made(executor_id@, "executor id length") {
                Ok(caller) => r matches Ok(text) && text@ == base58_encoded(caller.0@),
                Err(e) => r == Err::<String, GameError>(e),
            },
    {
        match PublicKey::from_executor_id(executor_id) {
            Ok(caller) => Ok(caller.to_base58()),
            Err(e) => Err(e),
        }
    }
}

} // verus!
