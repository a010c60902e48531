//! The snake: its body, heading, pending growth and score, and the move
//! it makes on every tick.

use vstd::prelude::*;
use crate::food::{is_food_cell, random_snake_unit};
use crate::geometry::{SnakeDirection, SnakeUnit};

verus! {

/// Points earned for one piece of food.
pub const FOOD_SCORE: i32 = 10;

/// The snake as the game holds it. `shape` is the body, head first;
/// `eaten` holds the cells where food was eaten and whose growth is still
/// owed, the most recent first.
pub struct Snake {
    pub shape: Vec<SnakeUnit>,
    pub direction: SnakeDirection,
    pub eaten: Vec<SnakeUnit>,
    pub score: i32,
}

/// Signals that the snake's next head cell already belongs to its body.
#[derive(Clone, Copy, Debug)]
pub struct CollisionError;

impl CollisionError {
    /// What the error says in words.
    pub fn message(&self) -> (text: &'static str)
        ensures
            text@ == "There was a collision detected"@,
    {
        "There was a collision detected"
    }
}

/// The snake as a mathematical value.
pub struct SnakeView {
    pub body: Seq<SnakeUnit>,
    pub direction: SnakeDirection,
    pub queue: Seq<SnakeUnit>,
    pub score: int,
}

impl View for Snake {
    type V = SnakeView;

    open spec fn view(&self) -> SnakeView {
        SnakeView {
            body: self.shape@,
            direction: self.direction,
            queue: self.eaten@,
            score: self.score as int,
        }
    }
}

impl SnakeView {
    /// Whether `cell` is one of the body's segments.
    pub open spec fn occupied(self, cell: SnakeUnit) -> bool {
        self.body.contains(cell)
    }

    /// Whether the snake moves at all: it has a body and has not stopped.
    pub open spec fn moving(self) -> bool {
        self.direction != SnakeDirection::Stopped && self.body.len() > 0
    }

    /// Whether this tick eats `food`: a moving snake's head lies on it.
    pub open spec fn eats(self, food: SnakeUnit) -> bool {
        self.moving() && self.body[0] == food
    }

    /// The growth queue once the food under the head, if any, is noted at
    /// its front.
    pub open spec fn fed(self, food: SnakeUnit) -> Seq<SnakeUnit> {
        if self.eats(food) {
            seq![food] + self.queue
        } else {
            self.queue
        }
    }

    /// Whether this tick keeps the tail: the tail lies on the oldest cell
    /// of the growth queue.
    pub open spec fn retains(self, food: SnakeUnit) -> bool {
        self.moving() && self.fed(food).len() > 0 && self.body.last() == self.fed(food).last()
    }

    /// The body once the tail has been dropped or kept.
    pub open spec fn trimmed(self, food: SnakeUnit) -> Seq<SnakeUnit> {
        if self.retains(food) {
            self.body
        } else {
            self.body.drop_last()
        }
    }

    /// The cell that the head moves to.
    pub open spec fn next_head(self) -> SnakeUnit {
        self.body[0].neighbor(self.direction)
    }

    /// Whether this tick runs the head into the body, the tail having
    /// been dropped or kept first.
    pub open spec fn collides(self, food: SnakeUnit) -> bool {
        self.moving() && self.trimmed(food).contains(self.next_head())
    }

    /// The snake after one move with the food at `food`. A stopped snake
    /// stays as it is. Otherwise food under the head is eaten, for
    /// `FOOD_SCORE` points and one entry at the front of the queue; the
    /// tail is dropped unless it lies on the oldest queued cell, which
    /// then leaves the queue; and the new head is put in front unless it
    /// would land on the body.
    pub open spec fn advanced(self, food: SnakeUnit) -> SnakeView {
        if !self.moving() {
            self
        } else {
            SnakeView {
                body: if self.collides(food) {
                    self.trimmed(food)
                } else {
                    seq![self.next_head()] + self.trimmed(food)
                },
                direction: self.direction,
                queue: if self.retains(food) {
                    self.fed(food).drop_last()
                } else {
                    self.fed(food)
                },
                score: self.score + if self.eats(food) {
                    FOOD_SCORE as int
                } else {
                    0
                },
            }
        }
    }

    /// The snake after one tick of the game: it moves, and a collision
    /// stops it for good.
    pub open spec fn ticked(self, food: SnakeUnit) -> SnakeView {
        if self.collides(food) {
            SnakeView { direction: SnakeDirection::Stopped, ..self.advanced(food) }
        } else {
            self.advanced(food)
        }
    }

    /// Whether the snake is sound: it has a body, and no cell occurs twice
    /// in it.
    pub open spec fn well_formed(self) -> bool {
        self.body.len() > 0 && self.body.no_duplicates()
    }

    /// Whether every segment of the body lies on the field.
    pub open spec fn on_field(self) -> bool {
        forall|i: int| 0 <= i < self.body.len() ==> (#[trigger] self.body[i]).on_field()
    }

    /// Whether some cell on which food may lie is free of the snake.
    pub open spec fn has_free_cell(self) -> bool {
        exists|cell: SnakeUnit| is_food_cell(cell) && !self.occupied(cell)
    }
}

/// A sound snake is still sound after a move, whether the move succeeds
/// or collides: it keeps a body, and no cell comes to occur twice in it.
pub proof fn lemma_move_keeps_well_formed(snake: SnakeView, food: SnakeUnit)
    requires
        snake.well_formed(),
    ensures
        snake.advanced(food).well_formed(),
        snake.ticked(food).well_formed(),
{
    if snake.moving() {
        let rest = snake.trimmed(food);
        assert forall|i: int, j: int|
            0 <= i < rest.len() && 0 <= j < rest.len() && i != j implies rest[i] != rest[j] by {
            assert(rest[i] == snake.body[i] && rest[j] == snake.body[j]);
        }
        if !snake.collides(food) {
            let grown = seq![snake.next_head()] + rest;
            assert forall|i: int, j: int|
                0 <= i < grown.len() && 0 <= j < grown.len() && i != j implies grown[i]
                != grown[j] by {
                if i > 0 {
                    assert(grown[i] == rest[i - 1]);
                }
                if j > 0 {
                    assert(grown[j] == rest[j - 1]);
                }
            }
        }
    }
}

impl Snake {
    /// The snake at the start of a game: five cells in a column above the
    /// origin, heading up, with nothing eaten.
    pub fn new() -> (snake: Snake)
        ensures
            snake@.body == seq![
                SnakeUnit { x: 0, y: 20 },
                SnakeUnit { x: 0, y: 15 },
                SnakeUnit { x: 0, y: 10 },
                SnakeUnit { x: 0, y: 5 },
                SnakeUnit { x: 0, y: 0 },
            ],
            snake@.direction == SnakeDirection::Up,
            snake@.queue == Seq::<SnakeUnit>::empty(),
            snake@.score == 0,
            snake@.well_formed(),
    {
        let mut shape: Vec<SnakeUnit> = Vec::new();
        shape.push(SnakeUnit { x: 0, y: 20 });
        shape.push(SnakeUnit { x: 0, y: 15 });
        shape.push(SnakeUnit { x: 0, y: 10 });
        shape.push(SnakeUnit { x: 0, y: 5 });
        shape.push(SnakeUnit { x: 0, y: 0 });
        let snake = Snake { shape, direction: SnakeDirection::Up, eaten: Vec::new(), score: 0 };
        assert(snake@.body =~= seq![
            SnakeUnit { x: 0, y: 20 },
            SnakeUnit { x: 0, y: 15 },
            SnakeUnit { x: 0, y: 10 },
            SnakeUnit { x: 0, y: 5 },
            SnakeUnit { x: 0, y: 0 },
        ]);
        snake
    }

    /// Whether `block` is one of the body's segments.
    pub fn occupied(&self, block: &SnakeUnit) -> (found: bool)
        ensures
            found == self@.occupied(*block),
    {
        let mut i: usize = 0;
        while i < self.shape.len()
            invariant
                i <= self.shape.len(),
                forall|k: int| 0 <= k < i ==> self.shape@[k] != *block,
            decreases self.shape.len() - i,
        {
            if self.shape[i] == *block {
                return true;
            }
            i += 1;
        }
        false
    }

    /// Moves the snake one step along its heading.
    ///
    /// The snake becomes `advanced` of what it was. The result is an error
    /// exactly when the move would run the head into the body. Food that
    /// was eaten is moved to a cell of the food grid that the snake, as it
    /// was before the move, does not occupy; food that was not eaten stays.
    pub fn update(&mut self, food: &mut SnakeUnit) -> (result: Result<(), CollisionError>)
        requires
            old(self).direction != SnakeDirection::Stopped ==> old(self).shape.len() > 0,
            old(self)@.eats(*old(food)) ==> old(self).score + FOOD_SCORE <= i32::MAX,
            old(self)@.eats(*old(food)) ==> old(self)@.has_free_cell(),
        ensures
            final(self)@ == old(self)@.advanced(*old(food)),
            result is Err <==> old(self)@.collides(*old(food)),
            old(self)@.eats(*old(food)) ==> is_food_cell(*final(food)) && !old(self)@.occupied(
                *final(food),
            ),
            !old(self)@.eats(*old(food)) ==> *final(food) == *old(food),
            old(self)@.well_formed() ==> final(self)@.well_formed(),
    {
        if self.direction == SnakeDirection::Stopped {
            return Ok(());
        }
        let ghost before = self@;
        proof {
            if before.well_formed() {
                lemma_move_keeps_well_formed(before, *food);
            }
        }
        let ghost morsel = *food;
        let first = self.shape[0];
        if first == *food {
            self.eaten.insert(0, *food);
            self.score += FOOD_SCORE;
            let fresh = random_snake_unit(self);
            *food = fresh;
        }
        assert(self.eaten@ =~= before.fed(morsel));
        let tail = self.shape.pop();
        let queued: usize = self.eaten.len();
        if queued > 0 {
            if let Some(last) = tail {
                if last == self.eaten[queued - 1] {
                    self.shape.push(last);
                    self.eaten.pop();
                }
            }
        }
        assert(self.shape@ =~= before.trimmed(morsel));
        let new_block = first.step(self.direction);
        if self.occupied(&new_block) {
            assert(self@ =~= before.advanced(morsel));
            Err(CollisionError)
        } else {
            self.shape.insert(0, new_block);
            assert(self.shape@ =~= seq![new_block] + before.trimmed(morsel));
            assert(self@ =~= before.advanced(morsel));
            Ok(())
        }
    }
}

} // verus!
