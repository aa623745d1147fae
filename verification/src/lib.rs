//! A turn-based two-player grid game engine with a composable
//! placement-validation pipeline.
//!
//! * [`board`]: coordinates, cells and the board algorithms (win and tie
//!   detection) for boards of any size.
//! * [`game`]: the match, a turn-based state machine over one board.
//! * [`validation`]: independent placement rules and the ordered pipelines
//!   that compose them.
//! * [`players`]: participants' identities and their private boards.
//! * [`state`]: the application state that a host drives, one match at a
//!   time.
//! * [`events`]: what a host may publish about a match.
//! * [`error`]: the error taxonomy shared by every operation.
//! * [`base58`]: what is assumed of the Base58 codec.
//!
//! Every operation is a synchronous computation over values in memory.
//! What a function returns and changes is stated in its contract, and the
//! contracts are proved.

pub mod base58;
pub mod board;
pub mod error;
pub mod events;
pub mod game;
pub mod players;
pub mod state;
pub mod validation;

pub use board::{Board, Cell, Coordinate, BOARD_SIZE};
pub use error::GameError;
pub use events::Event;
pub use game::{Match, MatchState};
pub use players::{PlayerBoard, PublicKey};
pub use state::{BoardView, MoveReport, TicTacToeState};
pub use validation::{
    validate_coordinates, validate_fleet_composition, validate_ship_placement,
    AdjacencyValidationStrategy, BoundsValidationStrategy, ContiguityValidationStrategy,
    FleetCompositionValidationStrategy, OverlapValidationStrategy, ShipAdjacencyValidationStrategy,
    ShipLengthValidationStrategy, ShipOverlapValidationStrategy, StraightLineValidationStrategy,
    Strategy, UniquenessValidationStrategy, ValidationContext, ValidationInput, ValidationStrategy,
};
