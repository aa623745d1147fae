//! Pipelines: rules in a fixed order, run up to the first that fails.

use vstd::prelude::*;

use crate::board::{Board, Coordinate};
use crate::error::GameError;
use crate::validation::input::ValidationInput;
use crate::validation::placement::{
    all_distinct, all_free, all_in_bounds, composition_fault, contiguous, fleet_apart,
    fleet_disjoint, straight, MAX_SHIP_LENGTH, MIN_SHIP_LENGTH,
};
use crate::validation::rules::{Strategy, ValidationStrategy};

verus! {

/// Every rule before position `upto` passes.
pub open spec fn passes_before<S: ValidationStrategy>(
    strategies: Seq<S>,
    input: &ValidationInput,
    upto: int,
) -> bool {
    forall|j: int|
        0 <= j < upto && j < strategies.len() ==> (#[trigger] strategies[j]).verdict(input) is Ok
}

/// What the rules from position `from` on decide, taken in order: the
/// verdict of the first that fails, or `Ok` when none does.
pub open spec fn pipeline_verdict_from<S: ValidationStrategy>(
    strategies: Seq<S>,
    input: &ValidationInput,
    from: int,
) -> Result<(), GameError>
    decreases strategies.len() - from,
{
    if from < 0 || from >= strategies.len() {
        Ok(())
    } else if strategies[from].verdict(input) is Err {
        strategies[from].verdict(input)
    } else {
        pipeline_verdict_from(strategies, input, from + 1)
    }
}

/// What a pipeline decides: the verdict of its first rule that fails, or
/// `Ok` when every rule passes.
pub open spec fn pipeline_verdict<S: ValidationStrategy>(
    strategies: Seq<S>,
    input: &ValidationInput,
) -> Result<(), GameError> {
    pipeline_verdict_from(strategies, input, 0)
}

/// Every rule that the pipeline gets to--each one before which all rules
/// pass--can be evaluated on the input.
pub open spec fn pipeline_admits<S: ValidationStrategy>(
    strategies: Seq<S>,
    input: &ValidationInput,
) -> bool {
    forall|i: int|
        0 <= i < strategies.len() && passes_before(strategies, input, i) ==> (
        #[trigger] strategies[i]).accepts(input)
}

/// Short circuit: where a rule fails and every rule before it passes, the
/// pipeline decides what that rule decides, whatever rules follow it.
pub proof fn lemma_first_failure_decides<S: ValidationStrategy>(
    strategies: Seq<S>,
    input: &ValidationInput,
    i: int,
)
    requires
        0 <= i < strategies.len(),
        passes_before(strategies, input, i),
        strategies[i].verdict(input) is Err,
    ensures
        pipeline_verdict(strategies, input) == strategies[i].verdict(input),
{
    lemma_skip_passing(strategies, input, 0, i);
}

/// Rules that pass do not change what the pipeline decides.
pub proof fn lemma_skip_passing<S: ValidationStrategy>(
    strategies: Seq<S>,
    input: &ValidationInput,
    from: int,
    to: int,
)
    requires
        0 <= from <= to <= strategies.len(),
        passes_before(strategies, input, to),
    ensures
        pipeline_verdict_from(strategies, input, from) == pipeline_verdict_from(
            strategies,
            input,
            to,
        ),
    decreases to - from,
{
    if from < to {
        assert(strategies[from].verdict(input) is Ok);
        lemma_skip_passing(strategies, input, from + 1, to);
    }
}

/// Short circuit, said of two pipelines: where they agree up to and
/// including a rule that fails after all before it passed, they decide the
/// same.  Nothing behind the first failure is looked at.
pub proof fn lemma_rest_is_not_evaluated<S: ValidationStrategy>(
    first: Seq<S>,
    second: Seq<S>,
    input: &ValidationInput,
    i: int,
)
    requires
        0 <= i < first.len(),
        i < second.len(),
        forall|j: int| 0 <= j <= i ==> first[j] == second[j],
        passes_before(first, input, i),
        first[i].verdict(input) is Err,
    ensures
        pipeline_verdict(first, input) == pipeline_verdict(second, input),
{
    assert forall|j: int| 0 <= j < i && j < second.len() implies (#[trigger] second[j]).verdict(
        input,
    ) is Ok by {
        assert(first[j].verdict(input) is Ok);
    }
    lemma_first_failure_decides(first, input, i);
    lemma_first_failure_decides(second, input, i);
}

/// A pipeline passes exactly when every one of its rules passes.
pub proof fn lemma_passes_iff_all_pass<S: ValidationStrategy>(
    strategies: Seq<S>,
    input: &ValidationInput,
)
    ensures
        pipeline_verdict(strategies, input) is Ok <==> passes_before(
            strategies,
            input,
            strategies.len() as int,
        ),
{
    lemma_verdict_from(strategies, input, 0);
}

/// From any position on, the pipeline passes exactly when every rule from
/// there on passes; and where it fails, it fails as one of them does.
proof fn lemma_verdict_from<S: ValidationStrategy>(
    strategies: Seq<S>,
    input: &ValidationInput,
    from: int,
)
    requires
        0 <= from <= strategies.len(),
    ensures
        pipeline_verdict_from(strategies, input, from) is Ok <==> (forall|j: int|
            from <= j < strategies.len() ==> (#[trigger] strategies[j]).verdict(input) is Ok),
    decreases strategies.len() - from,
{
    if from < strategies.len() {
        lemma_verdict_from(strategies, input, from + 1);
        if strategies[from].verdict(input) is Ok {
            assert forall|j: int|
                from <= j < strategies.len() && (forall|k: int|
                    from + 1 <= k < strategies.len() ==> (#[trigger] strategies[k]).verdict(
                        input,
                    ) is Ok) implies (#[trigger] strategies[j]).verdict(input) is Ok by {
                if j > from {
                    assert(strategies[j].verdict(input) is Ok);
                }
            }
        }
    }
}

/// An ordered pipeline of rules.
///
/// The rules are of one type.  Unless another is named they are boxed
/// rules, so that rules of different types can stand in one pipeline; the
/// presets hold [`Strategy`], the rules of this engine as one closed type.
pub struct ValidationContext<S: ValidationStrategy = Box<dyn ValidationStrategy>> {
    strategies: Vec<S>,
}

impl<S: ValidationStrategy> View for ValidationContext<S> {
    type V = Seq<S>;

    /// The rules, in the order in which they run.
    closed spec fn view(&self) -> Seq<S> {
        self.strategies@
    }
}

/// The rules of the placement pipeline, in order.
pub open spec fn placement_rules() -> Seq<Strategy> {
    seq![
        Strategy::Bounds,
        Strategy::Uniqueness,
        Strategy::Overlap,
        Strategy::Adjacency,
        Strategy::StraightLine,
        Strategy::Contiguity,
        Strategy::ShipLength,
    ]
}

/// The rules of the fleet pipeline, in order.
pub open spec fn fleet_rules() -> Seq<Strategy> {
    seq![Strategy::FleetComposition, Strategy::ShipOverlap, Strategy::ShipAdjacency]
}

/// The rules of the coordinates-only pipeline, in order.
pub open spec fn coordinate_rules() -> Seq<Strategy> {
    seq![Strategy::Bounds, Strategy::Uniqueness]
}

impl<S: ValidationStrategy> ValidationContext<S> {
    /// A pipeline without rules, for rules of any one type.
    pub fn empty() -> (r: ValidationContext<S>)
        ensures
            r@ == Seq::<S>::empty(),
    {
        ValidationContext { strategies: Vec::new() }
    }

    /// The same pipeline with one more rule at its end.
    pub fn add_strategy(self, strategy: S) -> (r: ValidationContext<S>)
        ensures
            r@ == self@.push(strategy),
    {
        let mut this = self;
        this.strategies.push(strategy);
        this
    }

    /// Runs the rules in order and stops at the first that fails.
    pub fn validate(&self, input: &ValidationInput) -> (r: Result<(), GameError>)
        requires
            pipeline_admits(self@, input),
        ensures
            r == pipeline_verdict(self@, input),
            r is Ok <==> passes_before(self@, input, self@.len() as int),
    {
        proof {
            lemma_passes_iff_all_pass(self@, input);
        }
        let mut i: usize = 0;
        while i < self.strategies.len()
            invariant
                i <= self@.len(),
                pipeline_admits(self@, input),
                passes_before(self@, input, i as int),
            decreases self@.len() - i,
        {
            let verdict = self.strategies[i].validate(input);
            if verdict.is_err() {
                proof {
                    lemma_first_failure_decides(self@, input, i as int);
                }
                return verdict;
            }
            i += 1;
        }
        proof {
            lemma_skip_passing(self@, input, 0, self@.len() as int);
        }
        Ok(())
    }

    /// The number of rules.
    pub fn strategy_count(&self) -> (r: usize)
        ensures
            r == self@.len(),
    {
        self.strategies.len()
    }

    /// The names of the rules, in the order in which they run.
    pub fn strategy_names(&self) -> (r: Vec<&'static str>)
        ensures
            r@.len() == self@.len(),
            forall|i: int| 0 <= i < self@.len() ==> r@[i] == (#[trigger] self@[i]).label(),
    {
        let mut names: Vec<&'static str> = Vec::new();
        let mut i: usize = 0;
        while i < self.strategies.len()
            invariant
                i <= self@.len(),
                names@.len() == i,
                forall|k: int| 0 <= k < i ==> names@[k] == (#[trigger] self@[k]).label(),
            decreases self@.len() - i,
        {
            names.push(self.strategies[i].name());
            i += 1;
        }
        names
    }

}

impl ValidationContext<Box<dyn ValidationStrategy>> {
    /// A pipeline of boxed rules, without rules yet: it passes every input.
    pub fn new() -> (r: ValidationContext)
        ensures
            r@ == Seq::<Box<dyn ValidationStrategy>>::empty(),
    {
        ValidationContext { strategies: Vec::new() }
    }
}

impl ValidationContext<Strategy> {
    /// The placement pipeline: bounds, uniqueness, overlap, adjacency,
    /// straight line, contiguity, ship length.
    pub fn ship_placement() -> (r: ValidationContext<Strategy>)
        ensures
            r@ == placement_rules(),
    {
        let r = ValidationContext::empty().add_strategy(Strategy::Bounds).add_strategy(
            Strategy::Uniqueness,
        ).add_strategy(Strategy::Overlap).add_strategy(Strategy::Adjacency).add_strategy(
            Strategy::StraightLine,
        ).add_strategy(Strategy::Contiguity).add_strategy(Strategy::ShipLength);
        assert(r@ =~= placement_rules());
        r
    }

    /// The fleet pipeline: fleet composition, ship overlap, ship adjacency.
    pub fn fleet_composition() -> (r: ValidationContext<Strategy>)
        ensures
            r@ == fleet_rules(),
    {
        let r = ValidationContext::empty().add_strategy(Strategy::FleetComposition).add_strategy(
            Strategy::ShipOverlap,
        ).add_strategy(Strategy::ShipAdjacency);
        assert(r@ =~= fleet_rules());
        r
    }

    /// The coordinates-only pipeline: bounds, uniqueness.
    pub fn coordinates_only() -> (r: ValidationContext<Strategy>)
        ensures
            r@ == coordinate_rules(),
    {
        let r = ValidationContext::empty().add_strategy(Strategy::Bounds).add_strategy(
            Strategy::Uniqueness,
        );
        assert(r@ =~= coordinate_rules());
        r
    }
}

/// What the placement pipeline decides on a placement: the first of its
/// rules that the placement breaks, in the pipeline's order.
pub open spec fn placement_verdict(board: Board, coordinates: Seq<Coordinate>, size: u8) -> Result<
    (),
    GameError,
> {
    if !all_in_bounds(coordinates, size) {
        Err(GameError::Invalid("coordinate out of bounds"))
    } else if !all_distinct(coordinates) {
        Err(GameError::Invalid("duplicate coordinate"))
    } else if !all_free(board, coordinates, size) {
        Err(GameError::Invalid("cell already occupied"))
    } else if !straight(coordinates) {
        Err(GameError::Invalid("ship must be straight (horizontal or vertical)"))
    } else if !contiguous(coordinates) {
        Err(GameError::Invalid("ship must be contiguous"))
    } else if !(MIN_SHIP_LENGTH <= coordinates.len() <= MAX_SHIP_LENGTH) {
        Err(GameError::Invalid("ship length must be between 2 and 5"))
    } else {
        Ok(())
    }
}

/// What the fleet pipeline decides on a fleet: the first of its rules that
/// the fleet breaks, in the pipeline's order.
pub open spec fn fleet_verdict(ship_counts: [usize; 4], ships: Seq<Vec<Coordinate>>) -> Result<
    (),
    GameError,
> {
    match composition_fault(ship_counts) {
        Some(e) => Err(e),
        None => if !fleet_disjoint(ships) {
            Err(GameError::Invalid("ships overlap"))
        } else if !fleet_apart(ships) {
            Err(GameError::Invalid("ships are adjacent"))
        } else {
            Ok(())
        },
    }
}

/// What the coordinates-only pipeline decides on a list of positions.
pub open spec fn coordinates_verdict(coordinates: Seq<Coordinate>, size: u8) -> Result<
    (),
    GameError,
> {
    if !all_in_bounds(coordinates, size) {
        Err(GameError::Invalid("coordinate out of bounds"))
    } else if !all_distinct(coordinates) {
        Err(GameError::Invalid("duplicate coordinate"))
    } else {
        Ok(())
    }
}

/// Checks the placement of one ship on a board with the placement
/// pipeline.
pub fn validate_ship_placement(board: &Board, coordinates: &[Coordinate], size: u8) -> (r: Result<
    (),
    GameError,
>)
    requires
        board.wf(size),
    ensures
        r == placement_verdict(*board, coordinates@, size),
{
    let input = ValidationInput::new().with_board(board.clone()).with_coordinates(
        vstd::slice::slice_to_vec(coordinates),
    ).with_size(size);
    let context = ValidationContext::ship_placement();
    proof {
        let rules = placement_rules();
        let held = input.board->Some_0;
        assert(held@ =~= board@);
        assert(all_free(held, coordinates@, size) == all_free(*board, coordinates@, size));
        assert(input.coordinates->Some_0@ == coordinates@);
        assert(pipeline_admits(rules, &input)) by {
            assert forall|i: int|
                0 <= i < rules.len() && passes_before(rules, &input, i) implies (
            #[trigger] rules[i]).accepts(&input) by {
                if i == 2 {
                    assert(rules[0].verdict(&input) is Ok);
                }
            }
        }
        reveal_with_fuel(pipeline_verdict_from, 8);
        assert(pipeline_verdict(rules, &input) == placement_verdict(*board, coordinates@, size));
    }
    context.validate(&input)
}

/// Checks a fleet with the fleet pipeline.
pub fn validate_fleet_composition(ship_counts: [usize; 4], ships: Vec<Vec<Coordinate>>) -> (r:
    Result<(), GameError>)
    ensures
        r == fleet_verdict(ship_counts, ships@),
{
    let input = ValidationInput::new().with_fleet_composition(ship_counts).with_ships(ships);
    let context = ValidationContext::fleet_composition();
    proof {
        let rules = fleet_rules();
        assert(pipeline_admits(rules, &input));
        reveal_with_fuel(pipeline_verdict_from, 4);
        assert(pipeline_verdict(rules, &input) == fleet_verdict(ship_counts, ships@));
    }
    context.validate(&input)
}

/// Checks a list of positions with the coordinates-only pipeline.
pub fn validate_coordinates(coordinates: &[Coordinate], size: u8) -> (r: Result<(), GameError>)
    ensures
        r == coordinates_verdict(coordinates@, size),
{
    let input = ValidationInput::new().with_coordinates(
        vstd::slice::slice_to_vec(coordinates),
    ).with_size(size);
    let context = ValidationContext::coordinates_only();
    proof {
        let rules = coordinate_rules();
        assert(input.coordinates->Some_0@ == coordinates@);
        assert(pipeline_admits(rules, &input));
        reveal_with_fuel(pipeline_verdict_from, 3);
        assert(pipeline_verdict(rules, &input) == coordinates_verdict(coordinates@, size));
    }
    context.validate(&input)
}

} // verus!
