//! The validation engine: independent rules, composed into ordered
//! pipelines.
//!
//! A rule reads the fields of a [`ValidationInput`] that it needs and fails
//! with a descriptive error when one is absent.  A [`ValidationContext`] runs
//! its rules in insertion order and stops at the first failure, so cheap
//! structural rules can guard the rules that read the board.
//!
//! * [`input`]: what the rules are given to look at.
//! * [`placement`]: what the rules ask, stated over sequences of positions.
//! * [`rules`]: the rules themselves.
//! * [`pipeline`]: the pipelines and the three presets.

pub mod input;
pub mod pipeline;
pub mod placement;
pub mod rules;

pub use input::ValidationInput;
pub use pipeline::{
    validate_coordinates, validate_fleet_composition, validate_ship_placement, ValidationContext,
};
pub use rules::{
    AdjacencyValidationStrategy, BoundsValidationStrategy, ContiguityValidationStrategy,
    FleetCompositionValidationStrategy, OverlapValidationStrategy, ShipAdjacencyValidationStrategy,
    ShipLengthValidationStrategy, ShipOverlapValidationStrategy, StraightLineValidationStrategy,
    Strategy, UniquenessValidationStrategy, ValidationStrategy,
};
