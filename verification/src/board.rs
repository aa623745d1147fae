//! Board geometry: coordinates, cells, and the board itself.
//!
//! A board of size `n` is a row-major sequence of `n * n` encoded cells; the
//! cell at column `x` and row `y` lives at index `y * n + x`.  Every board
//! operation takes the size explicitly, so the same algorithms serve boards
//! of any dimension.

use vstd::prelude::*;

use crate::error::GameError;

verus! {

/// Side length of the standard board.
pub const BOARD_SIZE: u8 = 3;

/// A position on the board: column `x`, row `y`.
#[derive(Debug, Clone, Copy, PartialEq, Eq, PartialOrd, Ord, Structural)]
pub struct Coordinate {
    /// The column.
    pub x: u8,
    /// The row.
    pub y: u8,
}

impl Coordinate {
    /// Whether both components lie on the standard board.
    pub open spec fn on_standard_board(self) -> bool {
        self.x < BOARD_SIZE && self.y < BOARD_SIZE
    }

    /// The validated factory: accepts exactly the positions of the standard
    /// board.
    pub fn new(x: u8, y: u8) -> (r: Result<Coordinate, GameError>)
        ensures
            r == (if x < BOARD_SIZE && y < BOARD_SIZE {
                Ok::<Coordinate, GameError>(Coordinate { x, y })
            } else {
                Err::<Coordinate, GameError>(GameError::Invalid("coordinate out of bounds"))
            }),
    {
        if x >= BOARD_SIZE || y >= BOARD_SIZE {
            return Err(GameError::Invalid("coordinate out of bounds"));
        }
        Ok(Coordinate { x, y })
    }

    /// Whether the position lies on the standard board.
    pub fn is_valid(&self) -> (r: bool)
        ensures
            r == self.on_standard_board(),
    {
        self.x < BOARD_SIZE && self.y < BOARD_SIZE
    }
}

/// The state of one cell.
#[derive(Debug, Clone, Copy, PartialEq, Eq, Structural)]
pub enum Cell {
    /// No mark has been placed.
    Empty,
    /// The first participant's mark.
    X,
    /// The second participant's mark.
    O,
}

impl Cell {
    /// The byte that encodes a cell: 0, 1 or 2.
    pub open spec fn encoding(self) -> u8 {
        match self {
            Cell::Empty => 0,
            Cell::X => 1,
            Cell::O => 2,
        }
    }

    /// The cell a byte stands for.  Decoding is lenient: every byte other
    /// than 1 and 2 reads as `Empty`.
    pub open spec fn decoding(value: u8) -> Cell {
        if value == 1 {
            Cell::X
        } else if value == 2 {
            Cell::O
        } else {
            Cell::Empty
        }
    }

    /// Encoding is reversible: decoding the byte of a cell gives the cell
    /// back.
    pub proof fn lemma_decoding_inverts_encoding(cell: Cell)
        ensures
            Cell::decoding(cell.encoding()) == cell,
            cell.encoding() <= 2,
    {
    }

    /// Decoding is lenient and encoding strict: a byte comes back from a
    /// round trip exactly when it is 0, 1 or 2, and every other byte reads
    /// as `Empty`.
    pub proof fn lemma_lenient_decoding(value: u8)
        ensures
            Cell::decoding(value).encoding() == value <==> value <= 2,
            value > 2 ==> Cell::decoding(value) == Cell::Empty,
    {
    }

    /// Encodes the cell as a single byte.
    pub fn to_u8(self) -> (r: u8)
        ensures
            r == self.encoding(),
    {
        match self {
            Cell::Empty => 0,
            Cell::X => 1,
            Cell::O => 2,
        }
    }

    /// Decodes a byte, leniently.
    pub fn from_u8(value: u8) -> (r: Cell)
        ensures
            r == Cell::decoding(value),
    {
        match value {
            1 => Cell::X,
            2 => Cell::O,
            _ => Cell::Empty,
        }
    }
}

/// The board: a flat, row-major sequence of encoded cells.
///
/// The bytes are public, as they are what is stored and sent; any byte other
/// than 1 and 2 reads as an empty cell.
#[derive(Debug)]
pub struct Board(pub Vec<u8>);

impl View for Board {
    type V = Seq<Cell>;

    /// The cells of the board, decoded, in row-major order.
    open spec fn view(&self) -> Seq<Cell> {
        self.0@.map_values(|b: u8| Cell::decoding(b))
    }
}

impl Clone for Board {
    fn clone(&self) -> (r: Board)
        ensures
            r.0@ == self.0@,
    {
        Board(self.0.clone())
    }
}

impl Board {
    /// A board is well formed for `size` when it holds `size * size` cells.
    pub open spec fn wf(&self, size: u8) -> bool {
        self.0@.len() == (size as int) * (size as int)
    }

    /// The board is strictly encoded: every byte is the encoding of a cell,
    /// that is 0, 1 or 2.  Boards that are only ever written through
    /// [`Board::set`] are.
    pub open spec fn strict(&self) -> bool {
        forall|i: int| 0 <= i < self.0@.len() ==> #[trigger] self.0@[i] <= 2
    }

    /// The row-major index of column `x` in row `y`.
    pub open spec fn index_of(size: int, x: int, y: int) -> int {
        y * size + x
    }

    /// The cell at column `x` of row `y`.
    pub open spec fn at(&self, size: int, x: int, y: int) -> Cell {
        self@[Board::index_of(size, x, y)]
    }

    /// Every position of a `size` by `size` grid has an index below
    /// `size * size`, and distinct positions have distinct indices.
    pub proof fn lemma_index_of(size: int, x: int, y: int)
        requires
            0 <= x < size,
            0 <= y < size,
        ensures
            0 <= Board::index_of(size, x, y) < size * size,
            Board::index_of(size, x, y) % size == x,
            Board::index_of(size, x, y) / size == y,
    {
        assert(y * size + size <= size * size) by (nonlinear_arith)
            requires
                0 <= y < size,
        ;
        assert(0 <= y * size) by (nonlinear_arith)
            requires
                0 <= y,
                0 < size,
        ;
        vstd::arithmetic::div_mod::lemma_fundamental_div_mod_converse(y * size + x, size, y, x);
    }

    /// Row `y` is won: its first cell holds a mark and every cell of the row
    /// holds the same mark.
    pub open spec fn row_won(&self, size: int, y: int) -> bool {
        &&& self.at(size, 0, y) != Cell::Empty
        &&& forall|x: int| 0 <= x < size ==> #[trigger] self.at(size, x, y) == self.at(size, 0, y)
    }

    /// Column `x` is won: its first cell holds a mark and every cell of the
    /// column holds the same mark.
    pub open spec fn column_won(&self, size: int, x: int) -> bool {
        &&& self.at(size, x, 0) != Cell::Empty
        &&& forall|y: int| 0 <= y < size ==> #[trigger] self.at(size, x, y) == self.at(size, x, 0)
    }

    /// The `i`-th cell of the main diagonal, which runs from the first cell
    /// of the first row to the last cell of the last row.
    pub open spec fn diagonal_cell(&self, size: int, i: int) -> Cell {
        self.at(size, i, i)
    }

    /// The `i`-th cell of the anti-diagonal, which runs from the last cell of
    /// the first row to the first cell of the last row.
    pub open spec fn anti_diagonal_cell(&self, size: int, i: int) -> Cell {
        self.at(size, size - 1 - i, i)
    }

    /// The main diagonal is won.  A board of size 0 has no diagonal.
    pub open spec fn diagonal_won(&self, size: int) -> bool {
        &&& size > 0
        &&& self.diagonal_cell(size, 0) != Cell::Empty
        &&& forall|i: int|
            0 <= i < size ==> #[trigger] self.diagonal_cell(size, i) == self.diagonal_cell(size, 0)
    }

    /// The anti-diagonal is won.  A board of size 0 has no diagonal.
    pub open spec fn anti_diagonal_won(&self, size: int) -> bool {
        &&& size > 0
        &&& self.anti_diagonal_cell(size, 0) != Cell::Empty
        &&& forall|i: int|
            0 <= i < size ==> #[trigger] self.anti_diagonal_cell(size, i)
                == self.anti_diagonal_cell(size, 0)
    }

    /// Some row is won.
    pub open spec fn has_won_row(&self, size: int) -> bool {
        exists|y: int| 0 <= y < size && #[trigger] self.row_won(size, y)
    }

    /// Some column is won.
    pub open spec fn has_won_column(&self, size: int) -> bool {
        exists|x: int| 0 <= x < size && #[trigger] self.column_won(size, x)
    }

    /// Row `y` is won and no row above it is.
    pub open spec fn is_first_won_row(&self, size: int, y: int) -> bool {
        &&& 0 <= y < size
        &&& self.row_won(size, y)
        &&& forall|k: int| 0 <= k < y ==> !#[trigger] self.row_won(size, k)
    }

    /// Column `x` is won and no column left of it is.
    pub open spec fn is_first_won_column(&self, size: int, x: int) -> bool {
        &&& 0 <= x < size
        &&& self.column_won(size, x)
        &&& forall|k: int| 0 <= k < x ==> !#[trigger] self.column_won(size, k)
    }

    /// The topmost won row, where there is one.
    pub open spec fn first_won_row(&self, size: int) -> int {
        choose|y: int| self.is_first_won_row(size, y)
    }

    /// The leftmost won column, where there is one.
    pub open spec fn first_won_column(&self, size: int) -> int {
        choose|x: int| self.is_first_won_column(size, x)
    }

    /// The mark that wins the board, if any.
    ///
    /// Lines are considered in a fixed order: the rows from the top, then the
    /// columns from the left, then the main diagonal, then the anti-diagonal.
    /// The first won line in that order names the winner.
    pub open spec fn winner(&self, size: int) -> Option<Cell> {
        if self.has_won_row(size) {
            Some(self.at(size, 0, self.first_won_row(size)))
        } else if self.has_won_column(size) {
            Some(self.at(size, self.first_won_column(size), 0))
        } else if self.diagonal_won(size) {
            Some(self.diagonal_cell(size, 0))
        } else if self.anti_diagonal_won(size) {
            Some(self.anti_diagonal_cell(size, 0))
        } else {
            None
        }
    }

    /// Some full row, column or diagonal is uniform and not empty.
    pub open spec fn has_won_line(&self, size: int) -> bool {
        ||| self.has_won_row(size)
        ||| self.has_won_column(size)
        ||| self.diagonal_won(size)
        ||| self.anti_diagonal_won(size)
    }

    /// Mark `mark` fills some full row, column or diagonal.
    pub open spec fn mark_has_line(&self, size: int, mark: Cell) -> bool {
        ||| exists|y: int|
            0 <= y < size && #[trigger] self.row_won(size, y) && self.at(size, 0, y) == mark
        ||| exists|x: int|
            0 <= x < size && #[trigger] self.column_won(size, x) && self.at(size, x, 0) == mark
        ||| self.diagonal_won(size) && self.diagonal_cell(size, 0) == mark
        ||| self.anti_diagonal_won(size) && self.anti_diagonal_cell(size, 0) == mark
    }

    /// No cell of the `size` by `size` grid is empty.
    pub open spec fn full(&self, size: int) -> bool {
        forall|x: int, y: int|
            0 <= x < size && 0 <= y < size ==> #[trigger] self.at(size, x, y) != Cell::Empty
    }

    /// A well-formed board is full exactly when none of its cells is empty:
    /// one empty cell, wherever it lies, makes the board not full.
    pub proof fn lemma_full_iff_no_empty_cell(&self, size: int)
        requires
            0 <= size,
            self@.len() == size * size,
        ensures
            self.full(size) <==> (forall|i: int| 0 <= i < self@.len() ==> self@[i] != Cell::Empty),
    {
        if self.full(size) {
            assert forall|i: int| 0 <= i < self@.len() implies self@[i] != Cell::Empty by {
                let x = i % size;
                let y = i / size;
                assert(size > 0) by (nonlinear_arith)
                    requires
                        0 <= i < size * size,
                        0 <= size,
                ;
                vstd::arithmetic::div_mod::lemma_fundamental_div_mod(i, size);
                vstd::arithmetic::div_mod::lemma_mod_bound(i, size);
                vstd::arithmetic::div_mod::lemma_div_pos_is_pos(i, size);
                assert(y < size) by (nonlinear_arith)
                    requires
                        i == size * y + x,
                        0 <= x,
                        i < size * size,
                        0 < size,
                ;
                assert(Board::index_of(size, x, y) == i) by (nonlinear_arith)
                    requires
                        i == size * y + x,
                ;
                assert(self.at(size, x, y) != Cell::Empty);
            }
        }
        if forall|i: int| 0 <= i < self@.len() ==> self@[i] != Cell::Empty {
            assert forall|x: int, y: int| 0 <= x < size && 0 <= y < size implies #[trigger] self.at(
                size,
                x,
                y,
            ) != Cell::Empty by {
                Board::lemma_index_of(size, x, y);
            }
        }
    }

    /// The topmost won row is the one that is won with none won above it.
    pub proof fn lemma_first_won_row(&self, size: int, y: int)
        requires
            self.is_first_won_row(size, y),
        ensures
            self.has_won_row(size),
            self.first_won_row(size) == y,
    {
        let c = self.first_won_row(size);
        assert(self.is_first_won_row(size, c));
        if c < y {
            assert(!self.row_won(size, c));
        } else if y < c {
            assert(!self.row_won(size, y));
        }
    }

    /// The leftmost won column is the one that is won with none won left of
    /// it.
    pub proof fn lemma_first_won_column(&self, size: int, x: int)
        requires
            self.is_first_won_column(size, x),
        ensures
            self.has_won_column(size),
            self.first_won_column(size) == x,
    {
        let c = self.first_won_column(size);
        assert(self.is_first_won_column(size, c));
        if c < x {
            assert(!self.column_won(size, c));
        } else if x < c {
            assert(!self.column_won(size, x));
        }
    }

    /// The reported winner is a mark exactly when some full row, column or
    /// diagonal is uniform and not empty, and the mark reported is the mark of
    /// such a line.
    pub proof fn lemma_winner_has_line(&self, size: int)
        ensures
            self.winner(size) is Some <==> self.has_won_line(size),
            self.winner(size) matches Some(mark) ==> mark != Cell::Empty && self.mark_has_line(
                size,
                mark,
            ),
    {
        if self.has_won_row(size) {
            let y = self.first_won_row(size);
            let w = choose|y: int| 0 <= y < size && #[trigger] self.row_won(size, y);
            self.lemma_least_won_row(size, w);
            assert(self.is_first_won_row(size, y));
        } else if self.has_won_column(size) {
            let x = self.first_won_column(size);
            let w = choose|x: int| 0 <= x < size && #[trigger] self.column_won(size, x);
            self.lemma_least_won_column(size, w);
            assert(self.is_first_won_column(size, x));
        }
    }

    /// Where row `y` is won, there is a topmost won row.
    proof fn lemma_least_won_row(&self, size: int, y: int)
        requires
            0 <= y < size,
            self.row_won(size, y),
        ensures
            exists|k: int| self.is_first_won_row(size, k),
        decreases y,
    {
        if exists|k: int| 0 <= k < y && #[trigger] self.row_won(size, k) {
            let k = choose|k: int| 0 <= k < y && #[trigger] self.row_won(size, k);
            self.lemma_least_won_row(size, k);
        } else {
            assert(self.is_first_won_row(size, y));
        }
    }

    /// Where column `x` is won, there is a leftmost won column.
    proof fn lemma_least_won_column(&self, size: int, x: int)
        requires
            0 <= x < size,
            self.column_won(size, x),
        ensures
            exists|k: int| self.is_first_won_column(size, k),
        decreases x,
    {
        if exists|k: int| 0 <= k < x && #[trigger] self.column_won(size, k) {
            let k = choose|k: int| 0 <= k < x && #[trigger] self.column_won(size, k);
            self.lemma_least_won_column(size, k);
        } else {
            assert(self.is_first_won_column(size, x));
        }
    }

    /// A board of `size * size` empty cells.
    pub fn new_zeroed(size: u8) -> (r: Board)
        ensures
            r.wf(size),
            r.strict(),
            forall|i: int| 0 <= i < r@.len() ==> r@[i] == Cell::Empty,
            forall|i: int| 0 <= i < r.0@.len() ==> r.0@[i] == 0,
    {
        assert((size as int) * (size as int) <= 255 * 255) by (nonlinear_arith)
            requires
                0 <= size <= 255,
        ;
        let n: usize = (size as usize) * (size as usize);
        let cells: Vec<u8> = vec![0u8; n];
        Board(cells)
    }

    /// The row-major index of a position: `y * size + x`.
    pub fn idx(size: u8, x: u8, y: u8) -> (r: usize)
        ensures
            r == Board::index_of(size as int, x as int, y as int),
    {
        assert((y as int) * (size as int) <= 255 * 255) by (nonlinear_arith)
            requires
                0 <= y <= 255,
                0 <= size <= 255,
        ;
        (y as usize) * (size as usize) + (x as usize)
    }

    /// Whether a position lies on a board of the given size.
    pub fn in_bounds(size: u8, x: u8, y: u8) -> (r: bool)
        ensures
            r == (x < size && y < size),
    {
        x < size && y < size
    }

    /// Reads the cell at a position of the board.
    pub fn get(&self, size: u8, x: u8, y: u8) -> (r: Cell)
        requires
            self.wf(size),
            x < size,
            y < size,
        ensures
            r == self.at(size as int, x as int, y as int),
    {
        proof {
            Board::lemma_index_of(size as int, x as int, y as int);
        }
        Cell::from_u8(self.0[Board::idx(size, x, y)])
    }

    /// Writes one cell and leaves every other cell as it was.
    pub fn set(&mut self, size: u8, x: u8, y: u8, cell: Cell)
        requires
            old(self).wf(size),
            x < size,
            y < size,
        ensures
            final(self).wf(size),
            final(self).0@ == old(self).0@.update(
                Board::index_of(size as int, x as int, y as int),
                cell.encoding(),
            ),
            final(self)@ == old(self)@.update(
                Board::index_of(size as int, x as int, y as int),
                cell,
            ),
            old(self).strict() ==> final(self).strict(),
    {
        proof {
            Board::lemma_index_of(size as int, x as int, y as int);
        }
        let i = Board::idx(size, x, y);
        self.0.set(i, cell.to_u8());
        assert(self@ =~= old(self)@.update(i as int, cell));
    }

    /// Whether row `y` is won.
    fn row_is_won(&self, size: u8, y: u8) -> (r: bool)
        requires
            self.wf(size),
            y < size,
        ensures
            r == self.row_won(size as int, y as int),
    {
        let first_cell: Cell = self.get(size, 0, y);
        if first_cell == Cell::Empty {
            return false;
        }
        let mut x: u8 = 1;
        while x < size
            invariant
                self.wf(size),
                y < size,
                1 <= x <= size,
                first_cell == self.at(size as int, 0, y as int),
                forall|k: int|
                    0 <= k < x ==> #[trigger] self.at(size as int, k, y as int) == first_cell,
            decreases size - x,
        {
            if self.get(size, x, y) != first_cell {
                return false;
            }
            x += 1;
        }
        true
    }

    /// Whether column `x` is won.
    fn column_is_won(&self, size: u8, x: u8) -> (r: bool)
        requires
            self.wf(size),
            x < size,
        ensures
            r == self.column_won(size as int, x as int),
    {
        let first_cell: Cell = self.get(size, x, 0);
        if first_cell == Cell::Empty {
            return false;
        }
        let mut y: u8 = 1;
        while y < size
            invariant
                self.wf(size),
                x < size,
                1 <= y <= size,
                first_cell == self.at(size as int, x as int, 0),
                forall|k: int|
                    0 <= k < y ==> #[trigger] self.at(size as int, x as int, k) == first_cell,
            decreases size - y,
        {
            if self.get(size, x, y) != first_cell {
                return false;
            }
            y += 1;
        }
        true
    }

    /// Whether the main diagonal is won.
    fn diagonal_is_won(&self, size: u8) -> (r: bool)
        requires
            self.wf(size),
            size > 0,
        ensures
            r == self.diagonal_won(size as int),
    {
        let first_cell: Cell = self.get(size, 0, 0);
        if first_cell == Cell::Empty {
            return false;
        }
        let mut i: u8 = 1;
        while i < size
            invariant
                self.wf(size),
                1 <= i <= size,
                first_cell == self.diagonal_cell(size as int, 0),
                forall|k: int|
                    0 <= k < i ==> #[trigger] self.diagonal_cell(size as int, k) == first_cell,
            decreases size - i,
        {
            if self.get(size, i, i) != first_cell {
                assert(self.diagonal_cell(size as int, i as int) != first_cell);
                return false;
            }
            i += 1;
        }
        true
    }

    /// Whether the anti-diagonal is won.
    fn anti_diagonal_is_won(&self, size: u8) -> (r: bool)
        requires
            self.wf(size),
            size > 0,
        ensures
            r == self.anti_diagonal_won(size as int),
    {
        let first_cell: Cell = self.get(size, size - 1, 0);
        if first_cell == Cell::Empty {
            return false;
        }
        let mut i: u8 = 1;
        while i < size
            invariant
                self.wf(size),
                1 <= i <= size,
                first_cell == self.anti_diagonal_cell(size as int, 0),
                forall|k: int|
                    0 <= k < i ==> #[trigger] self.anti_diagonal_cell(size as int, k) == first_cell,
            decreases size - i,
        {
            if self.get(size, size - 1 - i, i) != first_cell {
                assert(self.anti_diagonal_cell(size as int, i as int) != first_cell);
                return false;
            }
            i += 1;
        }
        true
    }

    /// Finds the winning mark, if there is one.
    ///
    /// Scans the rows, then the columns, then the main diagonal, then the
    /// anti-diagonal, and reports the mark of the first won line.  A board of
    /// size 0 is never won.
    pub fn check_winner(&self, size: u8) -> (r: Option<Cell>)
        requires
            self.wf(size),
        ensures
            r == self.winner(size as int),
            r is Some <==> self.has_won_line(size as int),
            r matches Some(mark) ==> mark != Cell::Empty && self.mark_has_line(size as int, mark),
    {
        proof {
            self.lemma_winner_has_line(size as int);
        }
        if size == 0 {
            return None;
        }
        let mut y: u8 = 0;
        while y < size
            invariant
                self.wf(size),
                y <= size,
                forall|k: int| 0 <= k < y ==> !#[trigger] self.row_won(size as int, k),
            decreases size - y,
        {
            if self.row_is_won(size, y) {
                proof {
                    self.lemma_first_won_row(size as int, y as int);
                }
                return Some(self.get(size, 0, y));
            }
            y += 1;
        }
        let mut x: u8 = 0;
        while x < size
            invariant
                self.wf(size),
                x <= size,
                !self.has_won_row(size as int),
                forall|k: int| 0 <= k < x ==> !#[trigger] self.column_won(size as int, k),
            decreases size - x,
        {
            if self.column_is_won(size, x) {
                proof {
                    self.lemma_first_won_column(size as int, x as int);
                }
                return Some(self.get(size, x, 0));
            }
            x += 1;
        }
        if self.diagonal_is_won(size) {
            return Some(self.get(size, 0, 0));
        }
        if self.anti_diagonal_is_won(size) {
            return Some(self.get(size, size - 1, 0));
        }
        None
    }

    /// Whether no cell of the board is empty.  A board of size 0 is full.
    pub fn is_full(&self, size: u8) -> (r: bool)
        requires
            self.wf(size),
        ensures
            r == self.full(size as int),
    {
        let mut y: u8 = 0;
        while y < size
            invariant
                self.wf(size),
                y <= size,
                forall|i: int, j: int|
                    0 <= i < size && 0 <= j < y ==> #[trigger] self.at(size as int, i, j)
                        != Cell::Empty,
            decreases size - y,
        {
            let mut x: u8 = 0;
            while x < size
                invariant
                    self.wf(size),
                    y < size,
                    x <= size,
                    forall|i: int, j: int|
                        0 <= i < size && 0 <= j < y ==> #[trigger] self.at(size as int, i, j)
                            != Cell::Empty,
                    forall|i: int|
                        0 <= i < x ==> #[trigger] self.at(size as int, i, y as int) != Cell::Empty,
                decreases size - x,
            {
                if self.get(size, x, y) == Cell::Empty {
                    return false;
                }
                x += 1;
            }
            y += 1;
        }
        true
    }
}

} // verus!
