//! What the rules are given to look at.

use vstd::prelude::*;

use crate::board::{Board, Coordinate, BOARD_SIZE};

verus! {

/// What the rules are given to look at.  Every field is optional; each rule
/// says which it needs.
#[derive(Debug, Clone)]
pub struct ValidationInput {
    /// The board that a placement is checked against.
    pub board: Option<Board>,
    /// The positions to check.
    pub coordinates: Option<Vec<Coordinate>>,
    /// The side length of the board; the standard size where absent.
    pub size: Option<u8>,
    /// The length of the ship; the number of positions where absent.
    pub ship_length: Option<u8>,
    /// How many ships the fleet has of length 2, 3, 4 and 5, in that order.
    pub fleet_composition: Option<[usize; 4]>,
    /// The positions of each ship of the fleet.
    pub ships: Option<Vec<Vec<Coordinate>>>,
}

impl ValidationInput {
    /// The side length that the rules go by.
    pub open spec fn grid_size(&self) -> u8 {
        match self.size {
            Some(size) => size,
            None => BOARD_SIZE,
        }
    }

    /// An input with every field absent.
    pub fn new() -> (r: ValidationInput)
        ensures
            r.board is None,
            r.coordinates is None,
            r.size is None,
            r.ship_length is None,
            r.fleet_composition is None,
            r.ships is None,
    {
        ValidationInput {
            board: None,
            coordinates: None,
            size: None,
            ship_length: None,
            fleet_composition: None,
            ships: None,
        }
    }

    /// The same input with the board set.
    pub fn with_board(self, board: Board) -> (r: ValidationInput)
        ensures
            r == (ValidationInput { board: Some(board), ..self }),
    {
        let mut this = self;
        this.board = Some(board);
        this
    }

    /// The same input with the positions set.
    pub fn with_coordinates(self, coordinates: Vec<Coordinate>) -> (r: ValidationInput)
        ensures
            r == (ValidationInput { coordinates: Some(coordinates), ..self }),
    {
        let mut this = self;
        this.coordinates = Some(coordinates);
        this
    }

    /// The same input with the side length set.
    pub fn with_size(self, size: u8) -> (r: ValidationInput)
        ensures
            r == (ValidationInput { size: Some(size), ..self }),
    {
        let mut this = self;
        this.size = Some(size);
        this
    }

    /// The same input with the ship's length set.
    pub fn with_ship_length(self, length: u8) -> (r: ValidationInput)
        ensures
            r == (ValidationInput { ship_length: Some(length), ..self }),
    {
        let mut this = self;
        this.ship_length = Some(length);
        this
    }

    /// The same input with the fleet's composition set.
    pub fn with_fleet_composition(self, composition: [usize; 4]) -> (r: ValidationInput)
        ensures
            r == (ValidationInput { fleet_composition: Some(composition), ..self }),
    {
        let mut this = self;
        this.fleet_composition = Some(composition);
        this
    }

    /// The same input with the fleet's ships set.
    pub fn with_ships(self, ships: Vec<Vec<Coordinate>>) -> (r: ValidationInput)
        ensures
            r == (ValidationInput { ships: Some(ships), ..self }),
    {
        let mut this = self;
        this.ships = Some(ships);
        this
    }
}

/// The length that the length rule goes by: the one supplied, else the
/// number of positions.
pub open spec fn effective_length(input: &ValidationInput) -> Option<int> {
    match input.ship_length {
        Some(length) => Some(length as int),
        None => match input.coordinates {
            Some(coordinates) => Some(coordinates@.len() as int),
            None => None,
        },
    }
}

} // verus!
