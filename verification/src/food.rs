//! Where food may lie, and how a free cell is found for it.

use vstd::prelude::*;
use crate::geometry::{SnakeUnit, BOUND, RANGE, UNIT};
use crate::snake::{Snake, SnakeView};

verus! {

/// How often a cell is drawn at random before the field is searched in
/// order.
pub const MAX_DRAWS: usize = 64;

/// Number of cells on which food may lie.
pub const FOOD_CELLS: usize = 1600;

/// Whether food may lie on `cell`: both coordinates are multiples of
/// `UNIT`, from `-BOUND` up to but not including `BOUND`.
pub open spec fn is_food_cell(cell: SnakeUnit) -> bool {
    &&& -BOUND <= cell.x < BOUND
    &&& -BOUND <= cell.y < BOUND
    &&& cell.x % UNIT == 0
    &&& cell.y % UNIT == 0
}

/// The cell of the food grid with number `k`, the cells counted column
/// by column from the corner of the field.
spec fn numbered_cell(k: int) -> SnakeUnit {
    SnakeUnit { x: ((k / 40 - RANGE) * UNIT) as i32, y: ((k % 40 - RANGE) * UNIT) as i32 }
}

/// A snake with fewer segments than there are food cells leaves one of
/// them free.
pub proof fn lemma_short_snake_leaves_room(snake: SnakeView)
    requires
        snake.body.len() < FOOD_CELLS,
    ensures
        snake.has_free_cell(),
{
    if !snake.has_free_cell() {
        let numbers = vstd::set_lib::set_int_range(0, 1600);
        vstd::set_lib::lemma_int_range(0, 1600);
        let place = |k: int| numbered_cell(k);
        assert(vstd::relations::injective_on(place, numbers)) by {
            assert forall|a: int, b: int|
                numbers.contains(a) && numbers.contains(b) && #[trigger] place(a)
                    == #[trigger] place(b) implies a == b by {
                assert(numbered_cell(a).x == (a / 40 - 20) * 5);
                assert(numbered_cell(b).x == (b / 40 - 20) * 5);
                assert(numbered_cell(a).y == (a % 40 - 20) * 5);
                assert(numbered_cell(b).y == (b % 40 - 20) * 5);
            }
        }
        let cells = numbers.map(place);
        vstd::set_lib::lemma_map_size(numbers, cells, place);
        let held = snake.body.to_set();
        assert forall|cell: SnakeUnit| cells.contains(cell) implies held.contains(cell) by {
            let k = choose|k: int| numbers.contains(k) && cell == place(k);
            assert(cell.x == (k / 40 - 20) * 5 && cell.y == (k % 40 - 20) * 5);
            assert(is_food_cell(cell));
            assert(snake.occupied(cell));
        }
        vstd::seq_lib::seq_to_set_is_finite(snake.body);
        vstd::set_lib::lemma_len_subset(cells, held);
        snake.body.lemma_cardinality_of_set();
    }
}

/// Draws an integer with `rand::Rng::gen_range` from the generator that
/// `rand::thread_rng` hands out. The draw is random, so all that is
/// claimed is what the method documents: the result is at least `low` and
/// less than `high`. The method panics unless `low < high`.
#[verifier::external_body]
fn random_between(low: i32, high: i32) -> (drawn: i32)
    requires
        low < high,
    ensures
        low <= drawn < high,
{
    rand::Rng::gen_range(&mut rand::thread_rng(), low, high)
}

/// The cell of the food grid in column `column` and row `row`, both
/// counted from the centre of the field.
pub fn food_cell(column: i32, row: i32) -> (cell: SnakeUnit)
    requires
        -RANGE <= column < RANGE,
        -RANGE <= row < RANGE,
    ensures
        cell == (SnakeUnit { x: (column * UNIT) as i32, y: (row * UNIT) as i32 }),
        is_food_cell(cell),
{
    SnakeUnit { x: column * UNIT, y: row * UNIT }
}

/// Searches the food grid column by column for a cell that the snake does
/// not occupy. The result is `None` exactly when there is no such cell;
/// otherwise it is the first free cell in that order.
pub fn first_free_cell(snake: &Snake) -> (found: Option<SnakeUnit>)
    ensures
        found is None <==> !snake@.has_free_cell(),
        found matches Some(cell) ==> {
            &&& is_food_cell(cell)
            &&& !snake@.occupied(cell)
            &&& forall|other: SnakeUnit|
                is_food_cell(other) && (other.x < cell.x || (other.x == cell.x && other.y
                    < cell.y)) ==> #[trigger] snake@.occupied(other)
        },
{
    let mut column: i32 = -RANGE;
    while column < RANGE
        invariant
            -RANGE <= column <= RANGE,
            forall|other: SnakeUnit|
                is_food_cell(other) && other.x < column * UNIT ==> #[trigger] snake@.occupied(
                    other,
                ),
        decreases RANGE - column,
    {
        let mut row: i32 = -RANGE;
        while row < RANGE
            invariant
                -RANGE <= column < RANGE,
                -RANGE <= row <= RANGE,
                forall|other: SnakeUnit|
                    is_food_cell(other) && (other.x < column * UNIT || (other.x == column * UNIT
                        && other.y < row * UNIT)) ==> #[trigger] snake@.occupied(other),
            decreases RANGE - row,
        {
            let cell = food_cell(column, row);
            if !snake.occupied(&cell) {
                return Some(cell);
            }
            row += 1;
        }
        column += 1;
    }
    None
}

/// Picks a cell for new food: a cell of the food grid that the snake does
/// not occupy. Cells are drawn at random, each coordinate on its own;
/// after `MAX_DRAWS` occupied draws the first free cell of the grid is
/// taken instead.
pub fn random_snake_unit(snake: &Snake) -> (cell: SnakeUnit)
    requires
        snake@.has_free_cell(),
    ensures
        is_food_cell(cell),
        !snake@.occupied(cell),
{
    let mut draws: usize = 0;
    while draws < MAX_DRAWS
        invariant
            draws <= MAX_DRAWS,
        decreases MAX_DRAWS - draws,
    {
        let column: i32 = random_between(-RANGE, RANGE);
        let row: i32 = random_between(-RANGE, RANGE);
        let cell = food_cell(column, row);
        if !snake.occupied(&cell) {
            return cell;
        }
        draws += 1;
    }
    first_free_cell(snake).unwrap()
}

} // verus!
