//! The rules: each one a verdict on an input, and a name.

use std::collections::BTreeSet;

use vstd::prelude::*;

use crate::board::{Board, Cell, Coordinate, BOARD_SIZE};
use crate::error::GameError;
use crate::validation::input::{effective_length, ValidationInput};
use crate::validation::placement::{
    all_distinct, all_free, all_in_bounds, axis_values, columns, composition_fault, contiguous,
    fleet_apart, fleet_disjoint, is_run, rows, same_column, same_row, ships_share_cell,
    ships_touch, straight, touching, within_window, MAX_SHIP_LENGTH, MIN_SHIP_LENGTH,
};

verus! {

/// A validation rule: a verdict on an input, and a name.
pub trait ValidationStrategy {
    /// The inputs on which the rule can be evaluated.
    spec fn accepts(&self, input: &ValidationInput) -> bool;

    /// The verdict of the rule: `Ok`, or the first violation found.
    spec fn verdict(&self, input: &ValidationInput) -> Result<(), GameError>;

    /// The name of the rule.
    spec fn label(&self) -> &'static str;

    /// Evaluates the rule.
    fn validate(&self, input: &ValidationInput) -> (r: Result<(), GameError>)
        requires
            self.accepts(input),
        ensures
            r == self.verdict(input),
    ;

    /// The name of the rule, for diagnostics.
    fn name(&self) -> (r: &'static str)
        ensures
            r == self.label(),
    ;
}

/// Every position lies on the board.
pub struct BoundsValidationStrategy;

impl ValidationStrategy for BoundsValidationStrategy {
    open spec fn accepts(&self, input: &ValidationInput) -> bool {
        true
    }

    open spec fn verdict(&self, input: &ValidationInput) -> Result<(), GameError> {
        match input.coordinates {
            None => Err(GameError::Invalid("coordinates required for bounds validation")),
            Some(coordinates) => if all_in_bounds(coordinates@, input.grid_size()) {
                Ok(())
            } else {
                Err(GameError::Invalid("coordinate out of bounds"))
            },
        }
    }

    open spec fn label(&self) -> &'static str {
        "BoundsValidation"
    }

    fn validate(&self, input: &ValidationInput) -> (r: Result<(), GameError>) {
        let coordinates = match &input.coordinates {
            None => {
                return Err(GameError::Invalid("coordinates required for bounds validation"));
            },
            Some(coordinates) => coordinates,
        };
        let size: u8 = match input.size {
            Some(size) => size,
            None => BOARD_SIZE,
        };
        let mut i: usize = 0;
        while i < coordinates.len()
            invariant
                input.coordinates == Some(*coordinates),
                size == input.grid_size(),
                i <= coordinates@.len(),
                forall|k: int|
                    0 <= k < i ==> (#[trigger] coordinates@[k]).x < size && coordinates@[k].y
                        < size,
            decreases coordinates@.len() - i,
        {
            if coordinates[i].x >= size || coordinates[i].y >= size {
                assert(!((#[trigger] coordinates@[i as int]).x < size && coordinates@[i as int].y
                    < size));
                return Err(GameError::Invalid("coordinate out of bounds"));
            }
            i += 1;
        }
        Ok(())
    }

    fn name(&self) -> (r: &'static str) {
        "BoundsValidation"
    }
}

/// No position occurs twice.
pub struct UniquenessValidationStrategy;

impl ValidationStrategy for UniquenessValidationStrategy {
    open spec fn accepts(&self, input: &ValidationInput) -> bool {
        true
    }

    open spec fn verdict(&self, input: &ValidationInput) -> Result<(), GameError> {
        match input.coordinates {
            None => Err(GameError::Invalid("coordinates required for uniqueness validation")),
            Some(coordinates) => if all_distinct(coordinates@) {
                Ok(())
            } else {
                Err(GameError::Invalid("duplicate coordinate"))
            },
        }
    }

    open spec fn label(&self) -> &'static str {
        "UniquenessValidation"
    }

    fn validate(&self, input: &ValidationInput) -> (r: Result<(), GameError>) {
        let coordinates = match &input.coordinates {
            None => {
                return Err(GameError::Invalid("coordinates required for uniqueness validation"));
            },
            Some(coordinates) => coordinates,
        };
        let mut seen: BTreeSet<(u8, u8)> = BTreeSet::new();
        let mut i: usize = 0;
        while i < coordinates.len()
            invariant
                input.coordinates == Some(*coordinates),
                i <= coordinates@.len(),
                forall|a: int, b: int|
                    0 <= a < b < i ==> #[trigger] coordinates@[a] != #[trigger] coordinates@[b],
                forall|a: int|
                    0 <= a < i ==> seen@.contains(
                        ((#[trigger] coordinates@[a]).x, coordinates@[a].y),
                    ),
                forall|k: (u8, u8)|
                    seen@.contains(k) ==> exists|a: int|
                        0 <= a < i && (#[trigger] coordinates@[a]).x == k.0 && coordinates@[a].y
                            == k.1,
            decreases coordinates@.len() - i,
        {
            let coord: Coordinate = coordinates[i];
            if !seen.insert((coord.x, coord.y)) {
                proof {
                    let a = choose|a: int|
                        0 <= a < i && (#[trigger] coordinates@[a]).x == coord.x && coordinates@[a].y
                            == coord.y;
                    assert(coordinates@[a] == coordinates@[i as int]);
                }
                return Err(GameError::Invalid("duplicate coordinate"));
            }
            i += 1;
        }
        Ok(())
    }

    fn name(&self) -> (r: &'static str) {
        "UniquenessValidation"
    }
}

/// No position lands on a cell of the board that holds a mark.
///
/// The rule reads the board at each position, so it can be evaluated where
/// the board has the size that the input names and the positions lie on it:
/// in a pipeline it stands behind the bounds rule.
pub struct OverlapValidationStrategy;

impl ValidationStrategy for OverlapValidationStrategy {
    open spec fn accepts(&self, input: &ValidationInput) -> bool {
        input.board matches Some(board) ==> (input.coordinates matches Some(coordinates)
            ==> board.wf(input.grid_size()) && all_in_bounds(coordinates@, input.grid_size()))
    }

    open spec fn verdict(&self, input: &ValidationInput) -> Result<(), GameError> {
        match input.board {
            None => Err(GameError::Invalid("board required for overlap validation")),
            Some(board) => match input.coordinates {
                None => Err(GameError::Invalid("coordinates required for overlap validation")),
                Some(coordinates) => if all_free(board, coordinates@, input.grid_size()) {
                    Ok(())
                } else {
                    Err(GameError::Invalid("cell already occupied"))
                },
            },
        }
    }

    open spec fn label(&self) -> &'static str {
        "OverlapValidation"
    }

    fn validate(&self, input: &ValidationInput) -> (r: Result<(), GameError>) {
        let board = match &input.board {
            None => {
                return Err(GameError::Invalid("board required for overlap validation"));
            },
            Some(board) => board,
        };
        let coordinates = match &input.coordinates {
            None => {
                return Err(GameError::Invalid("coordinates required for overlap validation"));
            },
            Some(coordinates) => coordinates,
        };
        let size: u8 = match input.size {
            Some(size) => size,
            None => BOARD_SIZE,
        };
        let mut i: usize = 0;
        while i < coordinates.len()
            invariant
                input.board == Some(*board),
                input.coordinates == Some(*coordinates),
                size == input.grid_size(),
                board.wf(size),
                all_in_bounds(coordinates@, size),
                i <= coordinates@.len(),
                forall|k: int|
                    0 <= k < i ==> board.at(
                        size as int,
                        (#[trigger] coordinates@[k]).x as int,
                        coordinates@[k].y as int,
                    ) == Cell::Empty,
            decreases coordinates@.len() - i,
        {
            let coord: Coordinate = coordinates[i];
            if board.get(size, coord.x, coord.y) != Cell::Empty {
                assert(board.at(
                    size as int,
                    (#[trigger] coordinates@[i as int]).x as int,
                    coordinates@[i as int].y as int,
                ) != Cell::Empty);
                return Err(GameError::Invalid("cell already occupied"));
            }
            i += 1;
        }
        Ok(())
    }

    fn name(&self) -> (r: &'static str) {
        "OverlapValidation"
    }
}

/// The extension point for games in which a placement must keep its
/// distance from what is on the board.  Here it asks only that the board and
/// the positions are given.
pub struct AdjacencyValidationStrategy;

impl ValidationStrategy for AdjacencyValidationStrategy {
    open spec fn accepts(&self, input: &ValidationInput) -> bool {
        true
    }

    open spec fn verdict(&self, input: &ValidationInput) -> Result<(), GameError> {
        if input.board is None {
            Err(GameError::Invalid("board required for adjacency validation"))
        } else if input.coordinates is None {
            Err(GameError::Invalid("coordinates required for adjacency validation"))
        } else {
            Ok(())
        }
    }

    open spec fn label(&self) -> &'static str {
        "AdjacencyValidation"
    }

    fn validate(&self, input: &ValidationInput) -> (r: Result<(), GameError>) {
        if input.board.is_none() {
            return Err(GameError::Invalid("board required for adjacency validation"));
        }
        if input.coordinates.is_none() {
            return Err(GameError::Invalid("coordinates required for adjacency validation"));
        }
        Ok(())
    }

    fn name(&self) -> (r: &'static str) {
        "AdjacencyValidation"
    }
}

/// Whether every position is in the column of the first.
fn shares_column(coordinates: &Vec<Coordinate>) -> (r: bool)
    requires
        coordinates@.len() > 0,
    ensures
        r == same_column(coordinates@),
{
    let first: u8 = coordinates[0].x;
    let mut i: usize = 0;
    while i < coordinates.len()
        invariant
            i <= coordinates@.len(),
            coordinates@.len() > 0,
            first == coordinates@[0].x,
            forall|k: int| 0 <= k < i ==> (#[trigger] coordinates@[k]).x == first,
        decreases coordinates@.len() - i,
    {
        if coordinates[i].x != first {
            assert((#[trigger] coordinates@[i as int]).x != first);
            return false;
        }
        i += 1;
    }
    true
}

/// Whether every position is in the row of the first.
fn shares_row(coordinates: &Vec<Coordinate>) -> (r: bool)
    requires
        coordinates@.len() > 0,
    ensures
        r == same_row(coordinates@),
{
    let first: u8 = coordinates[0].y;
    let mut i: usize = 0;
    while i < coordinates.len()
        invariant
            i <= coordinates@.len(),
            coordinates@.len() > 0,
            first == coordinates@[0].y,
            forall|k: int| 0 <= k < i ==> (#[trigger] coordinates@[k]).y == first,
        decreases coordinates@.len() - i,
    {
        if coordinates[i].y != first {
            assert((#[trigger] coordinates@[i as int]).y != first);
            return false;
        }
        i += 1;
    }
    true
}

/// The positions form a straight line: one column or one row.
pub struct StraightLineValidationStrategy;

impl ValidationStrategy for StraightLineValidationStrategy {
    open spec fn accepts(&self, input: &ValidationInput) -> bool {
        true
    }

    open spec fn verdict(&self, input: &ValidationInput) -> Result<(), GameError> {
        match input.coordinates {
            None => Err(GameError::Invalid("coordinates required for straight line validation")),
            Some(coordinates) => if straight(coordinates@) {
                Ok(())
            } else {
                Err(GameError::Invalid("ship must be straight (horizontal or vertical)"))
            },
        }
    }

    open spec fn label(&self) -> &'static str {
        "StraightLineValidation"
    }

    fn validate(&self, input: &ValidationInput) -> (r: Result<(), GameError>) {
        let coordinates = match &input.coordinates {
            None => {
                return Err(
                    GameError::Invalid("coordinates required for straight line validation"),
                );
            },
            Some(coordinates) => coordinates,
        };
        if coordinates.len() <= 1 {
            return Ok(());
        }
        let same_x: bool = shares_column(coordinates);
        let same_y: bool = shares_row(coordinates);
        if same_x == same_y {
            return Err(GameError::Invalid("ship must be straight (horizontal or vertical)"));
        }
        Ok(())
    }

    fn name(&self) -> (r: &'static str) {
        "StraightLineValidation"
    }
}

/// The ship's length lies between the least and the greatest length.
pub struct ShipLengthValidationStrategy;

impl ValidationStrategy for ShipLengthValidationStrategy {
    open spec fn accepts(&self, input: &ValidationInput) -> bool {
        true
    }

    open spec fn verdict(&self, input: &ValidationInput) -> Result<(), GameError> {
        match effective_length(input) {
            None => Err(GameError::Invalid("ship length required for length validation")),
            Some(length) => if MIN_SHIP_LENGTH <= length <= MAX_SHIP_LENGTH {
                Ok(())
            } else {
                Err(GameError::Invalid("ship length must be between 2 and 5"))
            },
        }
    }

    open spec fn label(&self) -> &'static str {
        "ShipLengthValidation"
    }

    fn validate(&self, input: &ValidationInput) -> (r: Result<(), GameError>) {
        let in_range: bool = match input.ship_length {
            Some(length) => MIN_SHIP_LENGTH <= length && length <= MAX_SHIP_LENGTH,
            None => match &input.coordinates {
                Some(coordinates) => MIN_SHIP_LENGTH as usize <= coordinates.len()
                    && coordinates.len() <= MAX_SHIP_LENGTH as usize,
                None => {
                    return Err(GameError::Invalid("ship length required for length validation"));
                },
            },
        };
        if !in_range {
            return Err(GameError::Invalid("ship length must be between 2 and 5"));
        }
        Ok(())
    }

    fn name(&self) -> (r: &'static str) {
        "ShipLengthValidation"
    }
}

/// The fleet has one ship of length 5, one of length 4, two of length 3 and
/// one of length 2.
pub struct FleetCompositionValidationStrategy;

impl ValidationStrategy for FleetCompositionValidationStrategy {
    open spec fn accepts(&self, input: &ValidationInput) -> bool {
        true
    }

    open spec fn verdict(&self, input: &ValidationInput) -> Result<(), GameError> {
        match input.fleet_composition {
            None => Err(
                GameError::Invalid("fleet composition required for composition validation"),
            ),
            Some(composition) => match composition_fault(composition) {
                Some(e) => Err(e),
                None => Ok(()),
            },
        }
    }

    open spec fn label(&self) -> &'static str {
        "FleetCompositionValidation"
    }

    fn validate(&self, input: &ValidationInput) -> (r: Result<(), GameError>) {
        let composition: [usize; 4] = match input.fleet_composition {
            None => {
                return Err(
                    GameError::Invalid("fleet composition required for composition validation"),
                );
            },
            Some(composition) => composition,
        };
        if composition[3] != 1 {
            return Err(GameError::Invalid("need exactly 1 ship of length 5"));
        }
        if composition[2] != 1 {
            return Err(GameError::Invalid("need exactly 1 ship of length 4"));
        }
        if composition[1] != 2 {
            return Err(GameError::Invalid("need exactly 2 ships of length 3"));
        }
        if composition[0] != 1 {
            return Err(GameError::Invalid("need exactly 1 ship of length 2"));
        }
        Ok(())
    }

    fn name(&self) -> (r: &'static str) {
        "FleetCompositionValidation"
    }
}

/// The column of a position, or its row.
fn along(coordinate: &Coordinate, by_row: bool) -> (r: u8)
    ensures
        r == (if by_row {
            coordinate.y
        } else {
            coordinate.x
        }),
{
    if by_row {
        coordinate.y
    } else {
        coordinate.x
    }
}

/// Whether the rows of the positions, or their columns, are a run.
fn forms_run(coordinates: &Vec<Coordinate>, by_row: bool) -> (r: bool)
    requires
        coordinates@.len() > 0,
    ensures
        r == is_run(axis_values(coordinates@, by_row)),
{
    let ghost values = axis_values(coordinates@, by_row);
    let n: usize = coordinates.len();
    // The least value, and where it stands.
    let mut low: u8 = along(&coordinates[0], by_row);
    let ghost mut at_low: int = 0;
    let mut i: usize = 1;
    while i < n
        invariant
            n == coordinates@.len(),
            values == axis_values(coordinates@, by_row),
            1 <= i <= n,
            0 <= at_low < i,
            values[at_low] == low,
            forall|k: int| 0 <= k < i ==> low <= #[trigger] values[k],
        decreases n - i,
    {
        let v: u8 = along(&coordinates[i], by_row);
        if v < low {
            low = v;
            proof {
                at_low = i as int;
            }
        }
        i += 1;
    }
    // Every value fits in the window that starts at the least.
    let mut i: usize = 0;
    while i < n
        invariant
            n == coordinates@.len(),
            values == axis_values(coordinates@, by_row),
            i <= n,
            0 <= at_low < n,
            values[at_low] == low,
            forall|k: int| 0 <= k < n ==> low <= #[trigger] values[k],
            forall|k: int| 0 <= k < i ==> #[trigger] values[k] < low + n,
        decreases n - i,
    {
        let v: u8 = along(&coordinates[i], by_row);
        assert(values[i as int] == v);
        if (v - low) as usize >= n {
            assert forall|other: int| !#[trigger] within_window(values, other) by {
                if within_window(values, other) {
                    assert(other <= values[at_low]);
                    assert(values[i as int] < other + n);
                }
            }
            return false;
        }
        i += 1;
    }
    assert(within_window(values, low as int));
    // No value occurs twice.
    let mut j: usize = 0;
    while j < n
        invariant
            n == coordinates@.len(),
            values == axis_values(coordinates@, by_row),
            j <= n,
            within_window(values, low as int),
            forall|a: int, b: int| 0 <= a < b < j ==> #[trigger] values[a] != #[trigger] values[b],
        decreases n - j,
    {
        let vj: u8 = along(&coordinates[j], by_row);
        let mut i: usize = 0;
        while i < j
            invariant
                n == coordinates@.len(),
                values == axis_values(coordinates@, by_row),
                i <= j < n,
                vj == values[j as int],
                forall|a: int| 0 <= a < i ==> #[trigger] values[a] != values[j as int],
            decreases j - i,
        {
            if along(&coordinates[i], by_row) == vj {
                assert(values[i as int] == values[j as int]);
                return false;
            }
            i += 1;
        }
        j += 1;
    }
    true
}

/// The positions are contiguous along their shared column or row.
pub struct ContiguityValidationStrategy;

impl ValidationStrategy for ContiguityValidationStrategy {
    open spec fn accepts(&self, input: &ValidationInput) -> bool {
        true
    }

    open spec fn verdict(&self, input: &ValidationInput) -> Result<(), GameError> {
        match input.coordinates {
            None => Err(GameError::Invalid("coordinates required for contiguity validation")),
            Some(coordinates) => if contiguous(coordinates@) {
                Ok(())
            } else {
                Err(GameError::Invalid("ship must be contiguous"))
            },
        }
    }

    open spec fn label(&self) -> &'static str {
        "ContiguityValidation"
    }

    fn validate(&self, input: &ValidationInput) -> (r: Result<(), GameError>) {
        let coordinates = match &input.coordinates {
            None => {
                return Err(GameError::Invalid("coordinates required for contiguity validation"));
            },
            Some(coordinates) => coordinates,
        };
        if coordinates.len() <= 1 {
            return Ok(());
        }
        let same_x: bool = shares_column(coordinates);
        let in_line: bool = if same_x {
            forms_run(coordinates, true)
        } else {
            shares_row(coordinates) && forms_run(coordinates, false)
        };
        proof {
            if same_x {
                // Two positions of one column: the columns hold a value twice and are no run.
                assert(columns(coordinates@)[0] == columns(coordinates@)[1]);
            }
        }
        if !in_line {
            return Err(GameError::Invalid("ship must be contiguous"));
        }
        Ok(())
    }

    fn name(&self) -> (r: &'static str) {
        "ContiguityValidation"
    }
}

/// Whether some position of the one ship is also a position of the other.
fn share_cell(a: &Vec<Coordinate>, b: &Vec<Coordinate>) -> (r: bool)
    ensures
        r == ships_share_cell(a@, b@),
{
    let mut i: usize = 0;
    while i < a.len()
        invariant
            i <= a@.len(),
            forall|x: int, y: int|
                0 <= x < i && 0 <= y < b@.len() ==> #[trigger] a@[x] != #[trigger] b@[y],
        decreases a@.len() - i,
    {
        let mut j: usize = 0;
        while j < b.len()
            invariant
                i < a@.len(),
                j <= b@.len(),
                forall|y: int| 0 <= y < j ==> a@[i as int] != #[trigger] b@[y],
            decreases b@.len() - j,
        {
            if a[i] == b[j] {
                assert(a@[i as int] == b@[j as int]);
                return true;
            }
            j += 1;
        }
        i += 1;
    }
    false
}

/// Whether two positions touch.
fn touch(a: &Coordinate, b: &Coordinate) -> (r: bool)
    ensures
        r == touching(*a, *b),
{
    let dx: u8 = if a.x >= b.x {
        a.x - b.x
    } else {
        b.x - a.x
    };
    let dy: u8 = if a.y >= b.y {
        a.y - b.y
    } else {
        b.y - a.y
    };
    dx <= 1 && dy <= 1 && !(dx == 0 && dy == 0)
}

/// Whether some position of the one ship touches a position of the other.
fn touch_each_other(a: &Vec<Coordinate>, b: &Vec<Coordinate>) -> (r: bool)
    ensures
        r == ships_touch(a@, b@),
{
    let mut i: usize = 0;
    while i < a.len()
        invariant
            i <= a@.len(),
            forall|x: int, y: int|
                0 <= x < i && 0 <= y < b@.len() ==> !touching(#[trigger] a@[x], #[trigger] b@[y]),
        decreases a@.len() - i,
    {
        let mut j: usize = 0;
        while j < b.len()
            invariant
                i < a@.len(),
                j <= b@.len(),
                forall|y: int| 0 <= y < j ==> !touching(a@[i as int], #[trigger] b@[y]),
            decreases b@.len() - j,
        {
            if touch(&a[i], &b[j]) {
                assert(touching(a@[i as int], b@[j as int]));
                return true;
            }
            j += 1;
        }
        i += 1;
    }
    false
}

/// No two ships of the fleet have a position in common.
pub struct ShipOverlapValidationStrategy;

impl ValidationStrategy for ShipOverlapValidationStrategy {
    open spec fn accepts(&self, input: &ValidationInput) -> bool {
        true
    }

    open spec fn verdict(&self, input: &ValidationInput) -> Result<(), GameError> {
        match input.ships {
            None => Err(GameError::Invalid("ships required for ship overlap validation")),
            Some(ships) => if fleet_disjoint(ships@) {
                Ok(())
            } else {
                Err(GameError::Invalid("ships overlap"))
            },
        }
    }

    open spec fn label(&self) -> &'static str {
        "ShipOverlapValidation"
    }

    fn validate(&self, input: &ValidationInput) -> (r: Result<(), GameError>) {
        let ships = match &input.ships {
            None => {
                return Err(GameError::Invalid("ships required for ship overlap validation"));
            },
            Some(ships) => ships,
        };
        let mut i: usize = 0;
        while i < ships.len()
            invariant
                input.ships == Some(*ships),
                i <= ships@.len(),
                forall|a: int, b: int|
                    0 <= a < i && a < b < ships@.len() ==> !ships_share_cell(
                        #[trigger] ships@[a]@,
                        #[trigger] ships@[b]@,
                    ),
            decreases ships@.len() - i,
        {
            let mut j: usize = i + 1;
            while j < ships.len()
                invariant
                    input.ships == Some(*ships),
                    i < j <= ships@.len(),
                    forall|b: int|
                        i < b < j ==> !ships_share_cell(ships@[i as int]@, #[trigger] ships@[b]@),
                decreases ships@.len() - j,
            {
                if share_cell(&ships[i], &ships[j]) {
                    assert(ships_share_cell(ships@[i as int]@, ships@[j as int]@));
                    return Err(GameError::Invalid("ships overlap"));
                }
                j += 1;
            }
            i += 1;
        }
        Ok(())
    }

    fn name(&self) -> (r: &'static str) {
        "ShipOverlapValidation"
    }
}

/// No two ships of the fleet touch, not even diagonally.
pub struct ShipAdjacencyValidationStrategy;

impl ValidationStrategy for ShipAdjacencyValidationStrategy {
    open spec fn accepts(&self, input: &ValidationInput) -> bool {
        true
    }

    open spec fn verdict(&self, input: &ValidationInput) -> Result<(), GameError> {
        match input.ships {
            None => Err(GameError::Invalid("ships required for ship adjacency validation")),
            Some(ships) => if fleet_apart(ships@) {
                Ok(())
            } else {
                Err(GameError::Invalid("ships are adjacent"))
            },
        }
    }

    open spec fn label(&self) -> &'static str {
        "ShipAdjacencyValidation"
    }

    fn validate(&self, input: &ValidationInput) -> (r: Result<(), GameError>) {
        let ships = match &input.ships {
            None => {
                return Err(GameError::Invalid("ships required for ship adjacency validation"));
            },
            Some(ships) => ships,
        };
        let mut i: usize = 0;
        while i < ships.len()
            invariant
                input.ships == Some(*ships),
                i <= ships@.len(),
                forall|a: int, b: int|
                    0 <= a < i && a < b < ships@.len() ==> !ships_touch(
                        #[trigger] ships@[a]@,
                        #[trigger] ships@[b]@,
                    ),
            decreases ships@.len() - i,
        {
            let mut j: usize = i + 1;
            while j < ships.len()
                invariant
                    input.ships == Some(*ships),
                    i < j <= ships@.len(),
                    forall|b: int|
                        i < b < j ==> !ships_touch(ships@[i as int]@, #[trigger] ships@[b]@),
                decreases ships@.len() - j,
            {
                if touch_each_other(&ships[i], &ships[j]) {
                    assert(ships_touch(ships@[i as int]@, ships@[j as int]@));
                    return Err(GameError::Invalid("ships are adjacent"));
                }
                j += 1;
            }
            i += 1;
        }
        Ok(())
    }

    fn name(&self) -> (r: &'static str) {
        "ShipAdjacencyValidation"
    }
}

/// The rules of this engine, as one closed type: what a
/// [`ValidationContext`] holds.
#[derive(Debug, Clone, Copy, PartialEq, Eq, Structural)]
pub enum Strategy {
    /// [`BoundsValidationStrategy`].
    Bounds,
    /// [`UniquenessValidationStrategy`].
    Uniqueness,
    /// [`OverlapValidationStrategy`].
    Overlap,
    /// [`AdjacencyValidationStrategy`].
    Adjacency,
    /// [`StraightLineValidationStrategy`].
    StraightLine,
    /// [`ContiguityValidationStrategy`].
    Contiguity,
    /// [`ShipLengthValidationStrategy`].
    ShipLength,
    /// [`FleetCompositionValidationStrategy`].
    FleetComposition,
    /// [`ShipOverlapValidationStrategy`].
    ShipOverlap,
    /// [`ShipAdjacencyValidationStrategy`].
    ShipAdjacency,
}

impl ValidationStrategy for Strategy {
    open spec fn accepts(&self, input: &ValidationInput) -> bool {
        match self {
            Strategy::Bounds => BoundsValidationStrategy.accepts(input),
            Strategy::Uniqueness => UniquenessValidationStrategy.accepts(input),
            Strategy::Overlap => OverlapValidationStrategy.accepts(input),
            Strategy::Adjacency => AdjacencyValidationStrategy.accepts(input),
            Strategy::StraightLine => StraightLineValidationStrategy.accepts(input),
            Strategy::Contiguity => ContiguityValidationStrategy.accepts(input),
            Strategy::ShipLength => ShipLengthValidationStrategy.accepts(input),
            Strategy::FleetComposition => FleetCompositionValidationStrategy.accepts(input),
            Strategy::ShipOverlap => ShipOverlapValidationStrategy.accepts(input),
            Strategy::ShipAdjacency => ShipAdjacencyValidationStrategy.accepts(input),
        }
    }

    open spec fn verdict(&self, input: &ValidationInput) -> Result<(), GameError> {
        match self {
            Strategy::Bounds => BoundsValidationStrategy.verdict(input),
            Strategy::Uniqueness => UniquenessValidationStrategy.verdict(input),
            Strategy::Overlap => OverlapValidationStrategy.verdict(input),
            Strategy::Adjacency => AdjacencyValidationStrategy.verdict(input),
            Strategy::StraightLine => StraightLineValidationStrategy.verdict(input),
            Strategy::Contiguity => ContiguityValidationStrategy.verdict(input),
            Strategy::ShipLength => ShipLengthValidationStrategy.verdict(input),
            Strategy::FleetComposition => FleetCompositionValidationStrategy.verdict(input),
            Strategy::ShipOverlap => ShipOverlapValidationStrategy.verdict(input),
            Strategy::ShipAdjacency => ShipAdjacencyValidationStrategy.verdict(input),
        }
    }

    open spec fn label(&self) -> &'static str {
        match self {
            Strategy::Bounds => BoundsValidationStrategy.label(),
            Strategy::Uniqueness => UniquenessValidationStrategy.label(),
            Strategy::Overlap => OverlapValidationStrategy.label(),
            Strategy::Adjacency => AdjacencyValidationStrategy.label(),
            Strategy::StraightLine => StraightLineValidationStrategy.label(),
            Strategy::Contiguity => ContiguityValidationStrategy.label(),
            Strategy::ShipLength => ShipLengthValidationStrategy.label(),
            Strategy::FleetComposition => FleetCompositionValidationStrategy.label(),
            Strategy::ShipOverlap => ShipOverlapValidationStrategy.label(),
            Strategy::ShipAdjacency => ShipAdjacencyValidationStrategy.label(),
        }
    }

    fn validate(&self, input: &ValidationInput) -> (r: Result<(), GameError>) {
        match self {
            Strategy::Bounds => BoundsValidationStrategy.validate(input),
            Strategy::Uniqueness => UniquenessValidationStrategy.validate(input),
            Strategy::Overlap => OverlapValidationStrategy.validate(input),
            Strategy::Adjacency => AdjacencyValidationStrategy.validate(input),
            Strategy::StraightLine => StraightLineValidationStrategy.validate(input),
            Strategy::Contiguity => ContiguityValidationStrategy.validate(input),
            Strategy::ShipLength => ShipLengthValidationStrategy.validate(input),
            Strategy::FleetComposition => FleetCompositionValidationStrategy.validate(input),
            Strategy::ShipOverlap => ShipOverlapValidationStrategy.validate(input),
            Strategy::ShipAdjacency => ShipAdjacencyValidationStrategy.validate(input),
        }
    }

    fn name(&self) -> (r: &'static str) {
        match self {
            Strategy::Bounds => BoundsValidationStrategy.name(),
            Strategy::Uniqueness => UniquenessValidationStrategy.name(),
            Strategy::Overlap => OverlapValidationStrategy.name(),
            Strategy::Adjacency => AdjacencyValidationStrategy.name(),
            Strategy::StraightLine => StraightLineValidationStrategy.name(),
            Strategy::Contiguity => ContiguityValidationStrategy.name(),
            Strategy::ShipLength => ShipLengthValidationStrategy.name(),
            Strategy::FleetComposition => FleetCompositionValidationStrategy.name(),
            Strategy::ShipOverlap => ShipOverlapValidationStrategy.name(),
            Strategy::ShipAdjacency => ShipAdjacencyValidationStrategy.name(),
        }
    }
}

/// A boxed rule of any type is a rule: it decides what the rule inside
/// decides.  Pipelines of boxed rules hold rules of different types side by
/// side.
impl ValidationStrategy for Box<dyn ValidationStrategy> {
    open spec fn accepts(&self, input: &ValidationInput) -> bool {
        (**self).accepts(input)
    }

    open spec fn verdict(&self, input: &ValidationInput) -> Result<(), GameError> {
        (**self).verdict(input)
    }

    open spec fn label(&self) -> &'static str {
        (**self).label()
    }

    fn validate(&self, input: &ValidationInput) -> (r: Result<(), GameError>) {
        (**self).validate(input)
    }

    fn name(&self) -> (r: &'static str) {
        (**self).name()
    }
}

} // verus!
