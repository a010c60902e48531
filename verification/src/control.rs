//! The decisions of the game loop: what a tick does to the snake, and
//! what a key press does to its heading and to the game.

use vstd::prelude::*;
use crate::food::is_food_cell;
use crate::geometry::{SnakeDirection, SnakeUnit};
use crate::snake::{Snake, SnakeView, FOOD_SCORE};

verus! {

/// Whether the game goes on.
#[derive(Clone, Copy, PartialEq, Eq, Structural, Debug)]
pub enum GameState {
    Done,
    Running,
}

/// A key press as the game sees it.
#[derive(Clone, Copy, PartialEq, Eq, Structural, Debug)]
pub enum Key {
    Up,
    Down,
    Left,
    Right,
    Char(char),
    Other,
}

/// The character that ends the game.
pub const QUIT: char = 'q';

impl Key {
    /// The heading that the key asks for, if it is an arrow key.
    pub open spec fn heading(self) -> Option<SnakeDirection> {
        match self {
            Key::Up => Some(SnakeDirection::Up),
            Key::Down => Some(SnakeDirection::Down),
            Key::Left => Some(SnakeDirection::Left),
            Key::Right => Some(SnakeDirection::Right),
            _ => None,
        }
    }
}

impl Key {
    /// Whether the key ends the game.
    pub fn is_quit(self) -> (quits: bool)
        ensures
            quits == (self == Key::Char(QUIT)),
    {
        match self {
            Key::Char(pressed) => pressed == QUIT,
            _ => false,
        }
    }
}

/// The heading after the player asks for `wanted`. A stopped snake stays
/// stopped, and a snake never turns straight back on itself; every other
/// request is granted.
pub open spec fn turned(current: SnakeDirection, wanted: SnakeDirection) -> SnakeDirection {
    if current == SnakeDirection::Stopped || wanted == current.reverse() {
        current
    } else {
        wanted
    }
}

/// The heading after `event`: an arrow key turns the snake as `turned`
/// says, anything else leaves the heading alone.
pub open spec fn steered(current: SnakeDirection, event: Option<Key>) -> SnakeDirection {
    match event {
        Some(key) => match key.heading() {
            Some(wanted) => turned(current, wanted),
            None => current,
        },
        None => current,
    }
}

impl SnakeView {
    /// The snake after `event` has been served: only its heading can
    /// have changed.
    pub open spec fn turned_by(self, event: Option<Key>) -> SnakeView {
        SnakeView { direction: steered(self.direction, event), ..self }
    }
}

/// One tick of the game: the snake moves, and if it ran into itself it is
/// stopped where it is. The food moves exactly when it was eaten, to a
/// cell of the food grid that the snake did not occupy before the tick.
pub fn tick(snake: &mut Snake, food: &mut SnakeUnit)
    requires
        old(snake).direction != SnakeDirection::Stopped ==> old(snake).shape.len() > 0,
        old(snake)@.eats(*old(food)) ==> old(snake).score + FOOD_SCORE <= i32::MAX,
        old(snake)@.eats(*old(food)) ==> old(snake)@.has_free_cell(),
    ensures
        final(snake)@ == old(snake)@.ticked(*old(food)),
        old(snake)@.eats(*old(food)) ==> is_food_cell(*final(food)) && !old(snake)@.occupied(
            *final(food),
        ),
        !old(snake)@.eats(*old(food)) ==> *final(food) == *old(food),
        old(snake)@.well_formed() ==> final(snake)@.well_formed(),
{
    match snake.update(food) {
        Ok(()) => {},
        Err(_) => {
            snake.direction = SnakeDirection::Stopped;
        },
    }
}

/// Applies at most one pending key press. The quit key ends the game and
/// leaves the snake alone; an arrow key turns the snake unless it is
/// stopped or the key points straight back; any other key, or none, does
/// nothing. Only the heading of the snake can change.
pub fn event_handler(snake: &mut Snake, event: Option<Key>) -> (state: GameState)
    ensures
        state == GameState::Done <==> event == Some(Key::Char(QUIT)),
        final(snake)@ == old(snake)@.turned_by(event),
        final(snake).direction == steered(old(snake).direction, event),
        final(snake).shape == old(snake).shape,
        final(snake).eaten == old(snake).eaten,
        final(snake).score == old(snake).score,
{
    match event {
        Some(Key::Char(pressed)) => {
            if Key::Char(pressed).is_quit() {
                GameState::Done
            } else {
                GameState::Running
            }
        },
        Some(Key::Up) => {
            if snake.direction != SnakeDirection::Up && snake.direction != SnakeDirection::Down
                && snake.direction != SnakeDirection::Stopped {
                snake.direction = SnakeDirection::Up;
            }
            GameState::Running
        },
        Some(Key::Down) => {
            if snake.direction != SnakeDirection::Up && snake.direction != SnakeDirection::Down
                && snake.direction != SnakeDirection::Stopped {
                snake.direction = SnakeDirection::Down;
            }
            GameState::Running
        },
        Some(Key::Right) => {
            if snake.direction != SnakeDirection::Left && snake.direction
                != SnakeDirection::Right && snake.direction != SnakeDirection::Stopped {
                snake.direction = SnakeDirection::Right;
            }
            GameState::Running
        },
        Some(Key::Left) => {
            if snake.direction != SnakeDirection::Left && snake.direction
                != SnakeDirection::Right && snake.direction != SnakeDirection::Stopped {
                snake.direction = SnakeDirection::Left;
            }
            GameState::Running
        },
        _ => GameState::Running,
    }
}

} // verus!
