//! What the rules ask of positions, ships and fleets, stated over sequences.

use vstd::prelude::*;

use crate::board::{Board, Cell, Coordinate};
use crate::error::GameError;

verus! {

/// Every position lies on a board of the given size.
pub open spec fn all_in_bounds(coordinates: Seq<Coordinate>, size: u8) -> bool {
    forall|i: int|
        0 <= i < coordinates.len() ==> (#[trigger] coordinates[i]).x < size && coordinates[i].y
            < size
}

/// No position occurs twice.
pub open spec fn all_distinct(coordinates: Seq<Coordinate>) -> bool {
    forall|i: int, j: int|
        0 <= i < j < coordinates.len() ==> #[trigger] coordinates[i] != #[trigger] coordinates[j]
}

/// Every position is an empty cell of the board.
pub open spec fn all_free(board: Board, coordinates: Seq<Coordinate>, size: u8) -> bool {
    forall|i: int|
        0 <= i < coordinates.len() ==> board.at(
            size as int,
            (#[trigger] coordinates[i]).x as int,
            coordinates[i].y as int,
        ) == Cell::Empty
}

/// Every position is in the column of the first.
pub open spec fn same_column(coordinates: Seq<Coordinate>) -> bool {
    forall|i: int| 0 <= i < coordinates.len() ==> (#[trigger] coordinates[i]).x == coordinates[0].x
}

/// Every position is in the row of the first.
pub open spec fn same_row(coordinates: Seq<Coordinate>) -> bool {
    forall|i: int| 0 <= i < coordinates.len() ==> (#[trigger] coordinates[i]).y == coordinates[0].y
}

/// The positions lie in one column or in one row, and not in both: two or
/// more positions that are all the same are not a line.  A single position,
/// or none, is trivially straight.
pub open spec fn straight(coordinates: Seq<Coordinate>) -> bool {
    coordinates.len() <= 1 || (same_column(coordinates) != same_row(coordinates))
}

/// The columns of the positions, in order.
pub open spec fn columns(coordinates: Seq<Coordinate>) -> Seq<int> {
    Seq::new(coordinates.len(), |i: int| coordinates[i].x as int)
}

/// The rows of the positions, in order.
pub open spec fn rows(coordinates: Seq<Coordinate>) -> Seq<int> {
    Seq::new(coordinates.len(), |i: int| coordinates[i].y as int)
}

/// Every value lies in the window of `values.len()` integers that starts at
/// `low`.
pub open spec fn within_window(values: Seq<int>, low: int) -> bool {
    forall|i: int| 0 <= i < values.len() ==> low <= #[trigger] values[i] < low + values.len()
}

/// The values are a run: taken in increasing order, each is one more than
/// the one before.  That is, no value occurs twice and all of them fit in a
/// window as long as their number.
pub open spec fn is_run(values: Seq<int>) -> bool {
    &&& forall|i: int, j: int|
        0 <= i < j < values.len() ==> #[trigger] values[i] != #[trigger] values[j]
    &&& exists|low: int| #[trigger] within_window(values, low)
}

/// Each value is one more than the one before it.
pub open spec fn steps_by_one(values: Seq<int>) -> bool {
    forall|i: int, j: int|
        0 <= i && j == i + 1 && j < values.len() ==> #[trigger] values[j] == #[trigger] values[i]
            + 1
}

/// No value is less than one before it.
pub open spec fn ascending(values: Seq<int>) -> bool {
    forall|i: int, j: int|
        0 <= i <= j < values.len() ==> #[trigger] values[i] <= #[trigger] values[j]
}

/// Values that step by one are the first of them plus their position.
proof fn lemma_steps_offset(values: Seq<int>, i: int)
    requires
        steps_by_one(values),
        0 <= i < values.len(),
    ensures
        values[i] == values[0] + i,
    decreases i,
{
    if i > 0 {
        lemma_steps_offset(values, i - 1);
        assert(values[i] == values[i - 1] + 1);
    }
}

/// Ascending values without repeats lie at least their position above a
/// lower bound of the first.
proof fn lemma_strictly_ascending_from(values: Seq<int>, low: int, i: int)
    requires
        ascending(values),
        values.no_duplicates(),
        0 <= i < values.len(),
        low <= values[0],
    ensures
        low + i <= values[i],
    decreases i,
{
    if i > 0 {
        lemma_strictly_ascending_from(values, low, i - 1);
        assert(values[i - 1] <= values[i]);
        assert(values[i - 1] != values[i]);
    }
}

/// Ascending values without repeats lie at least their distance from the end
/// below an upper bound of the last.
proof fn lemma_strictly_ascending_to(values: Seq<int>, high: int, i: int)
    requires
        ascending(values),
        values.no_duplicates(),
        0 <= i < values.len(),
        values[values.len() - 1] <= high,
    ensures
        values[i] <= high - (values.len() - 1 - i),
    decreases values.len() - i,
{
    if i < values.len() - 1 {
        lemma_strictly_ascending_to(values, high, i + 1);
        assert(values[i] <= values[i + 1]);
        assert(values[i] != values[i + 1]);
    }
}

/// Two arrangements of the same values: where the one has no repeats, the
/// other has none, and every value of the one occurs in the other.
proof fn lemma_rearranged(values: Seq<int>, other: Seq<int>)
    requires
        values.to_multiset() == other.to_multiset(),
    ensures
        values.len() == other.len(),
        values.no_duplicates() ==> other.no_duplicates(),
        forall|i: int| 0 <= i < values.len() ==> other.contains(#[trigger] values[i]),
{
    values.to_multiset_ensures();
    other.to_multiset_ensures();
    if values.no_duplicates() {
        values.lemma_multiset_has_no_duplicates();
        other.lemma_multiset_has_no_duplicates_conv();
    }
    assert forall|i: int| 0 <= i < values.len() implies other.contains(#[trigger] values[i]) by {
        assert(values.contains(values[i]));
        assert(values.to_multiset().count(values[i]) > 0);
        assert(other.to_multiset().count(values[i]) > 0);
    }
}

/// Values that step by one are a run, in whatever order they are arranged.
proof fn lemma_steps_make_run(values: Seq<int>, sorted: Seq<int>)
    requires
        sorted.to_multiset() == values.to_multiset(),
        steps_by_one(sorted),
    ensures
        is_run(values),
{
    let n = values.len() as int;
    lemma_rearranged(values, sorted);
    lemma_rearranged(sorted, values);
    if n == 0 {
        assert(within_window(values, 0));
    } else {
        assert forall|i: int, j: int| 0 <= i < n && 0 <= j < n && i != j implies sorted[i]
            != sorted[j] by {
            lemma_steps_offset(sorted, i);
            lemma_steps_offset(sorted, j);
        }
        assert(sorted.no_duplicates());
        assert(values.no_duplicates());
        assert forall|k: int| 0 <= k < n implies sorted[0] <= #[trigger] values[k] < sorted[0]
            + n by {
            assert(sorted.contains(values[k]));
            let j = choose|j: int| 0 <= j < sorted.len() && sorted[j] == values[k];
            lemma_steps_offset(sorted, j);
        }
        assert(within_window(values, sorted[0]));
    }
}

/// A run, arranged in ascending order, steps by one.
proof fn lemma_run_steps(values: Seq<int>, sorted: Seq<int>)
    requires
        sorted.to_multiset() == values.to_multiset(),
        ascending(sorted),
        is_run(values),
    ensures
        steps_by_one(sorted),
{
    let n = values.len() as int;
    lemma_rearranged(values, sorted);
    lemma_rearranged(sorted, values);
    let low = choose|low: int| #[trigger] within_window(values, low);
    assert(values.no_duplicates());
    assert(sorted.no_duplicates());
    assert forall|k: int| 0 <= k < n implies low <= #[trigger] sorted[k] < low + n by {
        assert(values.contains(sorted[k]));
        let j = choose|j: int| 0 <= j < values.len() && values[j] == sorted[k];
        assert(low <= values[j] < low + n);
    }
    assert forall|i: int, j: int|
        0 <= i && j == i + 1 && j < sorted.len() implies #[trigger] sorted[j]
        == #[trigger] sorted[i] + 1 by {
        lemma_strictly_ascending_from(sorted, low, i);
        lemma_strictly_ascending_from(sorted, low, j);
        lemma_strictly_ascending_to(sorted, low + n - 1, i);
        lemma_strictly_ascending_to(sorted, low + n - 1, j);
    }
}

/// What a run is, said with an order: the values are a run exactly when,
/// arranged in ascending order, each is one more than the one before it.
pub proof fn lemma_run_iff_sorted_steps(values: Seq<int>, sorted: Seq<int>)
    requires
        sorted.to_multiset() == values.to_multiset(),
        ascending(sorted),
    ensures
        is_run(values) <==> steps_by_one(sorted),
{
    if steps_by_one(sorted) {
        lemma_steps_make_run(values, sorted);
    }
    if is_run(values) {
        lemma_run_steps(values, sorted);
    }
}

/// What a run is, said with [`Seq::sort`]: the values are a run exactly
/// when, sorted, each is one more than the one before it.
pub proof fn lemma_run_iff_sort_steps(values: Seq<int>)
    ensures
        is_run(values) <==> steps_by_one(values.sort()),
{
    values.lemma_sort_ensures();
    let sorted = values.sort();
    assert forall|i: int, j: int| 0 <= i <= j < sorted.len() implies #[trigger] sorted[i]
        <= #[trigger] sorted[j] by {
        if i < j {
            let leq = |x: int, y: int| x <= y;
            assert(leq(sorted[i], sorted[j]));
        }
    }
    lemma_run_iff_sorted_steps(values, sorted);
}

/// The positions are contiguous: they share a column and their rows are a
/// run, or they share a row and their columns are a run.  A single position,
/// or none, is trivially contiguous.
pub open spec fn contiguous(coordinates: Seq<Coordinate>) -> bool {
    ||| coordinates.len() <= 1
    ||| same_column(coordinates) && is_run(rows(coordinates))
    ||| same_row(coordinates) && is_run(columns(coordinates))
}

/// Contiguity, said with a sort.  Two or more positions that share a column
/// are contiguous exactly when their rows, sorted, step by one; positions that
/// do not share a column are contiguous exactly when they share a row and
/// their columns, sorted, step by one.
pub proof fn lemma_contiguous_by_sorting(coordinates: Seq<Coordinate>)
    requires
        coordinates.len() >= 2,
    ensures
        contiguous(coordinates) <==> (if same_column(coordinates) {
            steps_by_one(rows(coordinates).sort())
        } else {
            same_row(coordinates) && steps_by_one(columns(coordinates).sort())
        }),
{
    lemma_run_iff_sort_steps(rows(coordinates));
    lemma_run_iff_sort_steps(columns(coordinates));
    if same_column(coordinates) {
        assert(columns(coordinates)[0] == columns(coordinates)[1]);
    }
}

/// Two positions touch: they are distinct, and neither their columns nor
/// their rows are more than one apart.  Diagonal neighbours touch.
pub open spec fn touching(a: Coordinate, b: Coordinate) -> bool {
    &&& a != b
    &&& -1 <= a.x - b.x <= 1
    &&& -1 <= a.y - b.y <= 1
}

/// Some position of the one ship is also a position of the other.
pub open spec fn ships_share_cell(a: Seq<Coordinate>, b: Seq<Coordinate>) -> bool {
    exists|i: int, j: int|
        0 <= i < a.len() && 0 <= j < b.len() && #[trigger] a[i] == #[trigger] b[j]
}

/// Some position of the one ship touches a position of the other.
pub open spec fn ships_touch(a: Seq<Coordinate>, b: Seq<Coordinate>) -> bool {
    exists|i: int, j: int|
        0 <= i < a.len() && 0 <= j < b.len() && touching(#[trigger] a[i], #[trigger] b[j])
}

/// No two distinct ships have a position in common.
pub open spec fn fleet_disjoint(ships: Seq<Vec<Coordinate>>) -> bool {
    forall|i: int, j: int|
        0 <= i < j < ships.len() ==> !ships_share_cell(#[trigger] ships[i]@, #[trigger] ships[j]@)
}

/// No two distinct ships touch.
pub open spec fn fleet_apart(ships: Seq<Vec<Coordinate>>) -> bool {
    forall|i: int, j: int|
        0 <= i < j < ships.len() ==> !ships_touch(#[trigger] ships[i]@, #[trigger] ships[j]@)
}

/// The least length of a ship.
pub const MIN_SHIP_LENGTH: u8 = 2;

/// The greatest length of a ship.
pub const MAX_SHIP_LENGTH: u8 = 5;

/// The first bucket of a fleet's composition that is wrong, as the error
/// that names it.  The buckets are checked from the longest ship to the
/// shortest: one ship of length 5, one of length 4, two of length 3, one of
/// length 2.
pub open spec fn composition_fault(composition: [usize; 4]) -> Option<GameError> {
    if composition[3] != 1 {
        Some(GameError::Invalid("need exactly 1 ship of length 5"))
    } else if composition[2] != 1 {
        Some(GameError::Invalid("need exactly 1 ship of length 4"))
    } else if composition[1] != 2 {
        Some(GameError::Invalid("need exactly 2 ships of length 3"))
    } else if composition[0] != 1 {
        Some(GameError::Invalid("need exactly 1 ship of length 2"))
    } else {
        None
    }
}

/// The rows of the positions, or their columns.
pub open spec fn axis_values(coordinates: Seq<Coordinate>, by_row: bool) -> Seq<int> {
    if by_row {
        rows(coordinates)
    } else {
        columns(coordinates)
    }
}

} // verus!
