//! Participants: their identities and their private boards.

use vstd::prelude::*;
use vstd::std_specs::cmp::PartialEqSpecImpl;

use crate::base58::{base58_decoded, base58_encoded, decode_text, encode_bytes};
use crate::board::{Board, Cell, BOARD_SIZE};
use crate::error::GameError;

verus! {

/// A participant's identity: 32 opaque bytes, compared for equality.
#[derive(Debug)]
pub struct PublicKey(pub [u8; 32]);

impl Clone for PublicKey {
    fn clone(&self) -> (r: PublicKey)
        ensures
            r == *self,
    {
        PublicKey(self.0)
    }
}

impl PartialEq for PublicKey {
    /// Two identities are equal when all their bytes are.
    fn eq(&self, other: &PublicKey) -> (r: bool) {
        broadcast use vstd::array::axiom_array_ext_equal;

        let mut i: usize = 0;
        while i < 32
            invariant
                i <= 32,
                forall|k: int| 0 <= k < i ==> self.0[k] == other.0[k],
            decreases 32 - i,
        {
            if self.0[i] != other.0[i] {
                return false;
            }
            i += 1;
        }
        assert(self.0 =~= other.0);
        true
    }
}

impl Eq for PublicKey {

}

impl PartialEqSpecImpl for PublicKey {
    open spec fn obeys_eq_spec() -> bool {
        true
    }

    open spec fn eq_spec(&self, other: &PublicKey) -> bool {
        *self == *other
    }
}

impl PublicKey {
    /// The identity that holds exactly the given 32 bytes.
    pub open spec fn holding(bytes: Seq<u8>) -> PublicKey {
        choose|key: PublicKey| key.0@ == bytes
    }

    /// An identity is the one that holds its bytes.
    pub proof fn lemma_holding(key: PublicKey)
        ensures
            PublicKey::holding(key.0@) == key,
    {
        broadcast use vstd::array::axiom_array_ext_equal;

        let chosen = PublicKey::holding(key.0@);
        assert(chosen.0@ == key.0@);
        assert(chosen.0 =~= key.0);
    }

    /// What making an identity of `bytes` gives: the identity that holds
    /// them where there are 32, and else the error with the message `fault`.
    pub open spec fn made(bytes: Seq<u8>, fault: &'static str) -> Result<PublicKey, GameError> {
        if bytes.len() == 32 {
            Ok(PublicKey::holding(bytes))
        } else {
            Err(GameError::Invalid(fault))
        }
    }

    /// What parsing a text gives, where `decoded` is what the text stands
    /// for in Base58: the bytes must decode, and there must be 32 of them.
    pub open spec fn parsed(decoded: Option<Seq<u8>>) -> Result<PublicKey, GameError> {
        match decoded {
            None => Err(GameError::Invalid("bad base58 key")),
            Some(bytes) => PublicKey::made(bytes, "key length"),
        }
    }

    /// Makes an identity of 32 bytes.
    fn from_slice(bytes: &[u8], fault: &'static str) -> (r: Result<PublicKey, GameError>)
        ensures
            r == PublicKey::made(bytes@, fault),
    {
        if bytes.len() != 32 {
            return Err(GameError::Invalid(fault));
        }
        let mut arr: [u8; 32] = [0u8; 32];
        let mut i: usize = 0;
        while i < 32
            invariant
                bytes@.len() == 32,
                i <= 32,
                forall|k: int| 0 <= k < i ==> arr@[k] == bytes@[k],
            decreases 32 - i,
        {
            arr[i] = bytes[i];
            i += 1;
        }
        let key = PublicKey(arr);
        proof {
            assert(key.0@ =~= bytes@);
            PublicKey::lemma_holding(key);
        }
        Ok(key)
    }

    /// The identity of the one on whose behalf the current call runs, made
    /// of the bytes by which the host names them.
    pub fn from_executor_id(executor_id: &[u8]) -> (r: Result<PublicKey, GameError>)
        ensures
            r == PublicKey::made(executor_id@, "executor id length"),
    {
        PublicKey::from_slice(executor_id, "executor id length")
    }

    /// The identity that a decoded text holds: what
    /// [`PublicKey::from_base58`] does once the text is decoded.
    pub fn from_decoded(decoded: Result<Vec<u8>, bs58::decode::Error>) -> (r: Result<
        PublicKey,
        GameError,
    >)
        ensures
            r == PublicKey::parsed(
                match decoded {
                    Ok(bytes) => Some(bytes@),
                    Err(_) => None,
                },
            ),
    {
        match decoded {
            Err(_) => Err(GameError::Invalid("bad base58 key")),
            Ok(bytes) => PublicKey::from_slice(bytes.as_slice(), "key length"),
        }
    }

    /// Parses an identity from its Base58 text.
    pub fn from_base58(encoded: &str) -> (r: Result<PublicKey, GameError>)
        ensures
            r == PublicKey::parsed(base58_decoded(encoded@)),
    {
        PublicKey::from_decoded(decode_text(encoded))
    }

    /// The Base58 text of the identity.
    pub fn to_base58(&self) -> (r: String)
        ensures
            r@ == base58_encoded(self.0@),
    {
        encode_bytes(&self.0)
    }
}

/// One participant's private board.
///
/// The board is the standard size.  Marks can be placed until the board is
/// declared finished.
#[derive(Debug, Clone)]
pub struct PlayerBoard {
    own: Board,
    ships: u64,
    placed: bool,
}

impl PlayerBoard {
    /// The board held.
    pub closed spec fn board(&self) -> Board {
        self.own
    }

    /// Whether the board has been declared finished.
    pub closed spec fn finished(&self) -> bool {
        self.placed
    }

    /// The count kept beside the board.  No operation of the board reads or
    /// changes it.
    pub closed spec fn ships(&self) -> u64 {
        self.ships
    }

    /// The board held has the standard size.
    pub open spec fn wf(&self) -> bool {
        self.board().wf(BOARD_SIZE)
    }

    /// Why a mark at column `x`, row `y` is refused, if it is.
    pub open spec fn rejection(&self, x: u8, y: u8) -> Option<GameError> {
        if self.finished() {
            Some(GameError::Invalid("game already finished"))
        } else if !(x < BOARD_SIZE && y < BOARD_SIZE) {
            Some(GameError::Invalid("coordinate out of bounds"))
        } else if self.board().at(BOARD_SIZE as int, x as int, y as int) != Cell::Empty {
            Some(GameError::Invalid("cell already occupied"))
        } else {
            None
        }
    }

    /// An empty, unfinished board of the standard size.
    pub fn new() -> (r: PlayerBoard)
        ensures
            r.wf(),
            !r.finished(),
            r.ships() == 0,
            forall|i: int| 0 <= i < r.board()@.len() ==> r.board()@[i] == Cell::Empty,
    {
        PlayerBoard { own: Board::new_zeroed(BOARD_SIZE), ships: 0, placed: false }
    }

    /// The private board made of what was stored of it.
    pub fn from_parts(own: Board, ships: u64, placed: bool) -> (r: PlayerBoard)
        ensures
            r.board() == own,
            r.ships() == ships,
            r.finished() == placed,
    {
        PlayerBoard { own, ships, placed }
    }

    /// What is stored of the private board: the board, the count, and
    /// whether the board is finished.
    pub fn into_parts(self) -> (r: (Board, u64, bool))
        ensures
            r == (self.board(), self.ships(), self.finished()),
    {
        (self.own, self.ships, self.placed)
    }

    /// Places `mark` on an empty cell of an unfinished board.
    ///
    /// A refused mark leaves the board as it was.
    pub fn make_move(&mut self, x: u8, y: u8, mark: Cell) -> (r: Result<(), GameError>)
        requires
            old(self).wf(),
        ensures
            final(self).wf(),
            final(self).finished() == old(self).finished(),
            final(self).ships() == old(self).ships(),
            match old(self).rejection(x, y) {
                Some(e) => r == Err::<(), GameError>(e) && *final(self) == *old(self),
                None => r is Ok && final(self).board()@ == old(self).board()@.update(
                    Board::index_of(BOARD_SIZE as int, x as int, y as int),
                    mark,
                ),
            },
    {
        if self.placed {
            return Err(GameError::Invalid("game already finished"));
        }
        if !Board::in_bounds(BOARD_SIZE, x, y) {
            return Err(GameError::Invalid("coordinate out of bounds"));
        }
        if self.own.get(BOARD_SIZE, x, y) != Cell::Empty {
            return Err(GameError::Invalid("cell already occupied"));
        }
        self.own.set(BOARD_SIZE, x, y, mark);
        Ok(())
    }

    /// The board, to read.
    pub fn get_board(&self) -> (r: &Board)
        ensures
            *r == self.board(),
    {
        &self.own
    }

    /// The board, to change.
    pub fn get_board_mut(&mut self) -> (r: &mut Board)
        ensures
            *r == old(self).board(),
            final(self).board() == *final(r),
            final(self).finished() == old(self).finished(),
            final(self).ships() == old(self).ships(),
    {
        &mut self.own
    }

    /// Whether the board has been declared finished.
    pub fn is_placed(&self) -> (r: bool)
        ensures
            r == self.finished(),
    {
        self.placed
    }

    /// Declares the board finished: no further mark is accepted.
    pub fn set_finished(&mut self)
        ensures
            final(self).finished(),
            final(self).board() == old(self).board(),
            final(self).ships() == old(self).ships(),
    {
        self.placed = true;
    }
}

} // verus!
