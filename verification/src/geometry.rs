//! The grid: its step size, its bounds, cells and headings.

use vstd::prelude::*;

verus! {

/// Side length of one grid cell, and the distance of one step.
pub const UNIT: i32 = 5;

/// Number of cells between the centre of the field and its edge.
pub const RANGE: i32 = 20;

/// Largest coordinate on the field; the smallest is `-BOUND`.
pub const BOUND: i32 = UNIT * RANGE;

/// One grid cell, named by the coordinates of its corner.
#[derive(Clone, Copy, PartialEq, Eq, Structural, Debug)]
pub struct SnakeUnit {
    pub x: i32,
    pub y: i32,
}

/// The heading of the snake. `Stopped` is reached after a collision and
/// never left.
#[derive(Clone, Copy, PartialEq, Eq, Structural, Debug)]
pub enum SnakeDirection {
    Up,
    Down,
    Left,
    Right,
    Stopped,
}

/// The coordinate one step in the positive direction: a step that would
/// pass `BOUND` lands on `-BOUND` instead.
pub open spec fn forward(c: int) -> int {
    if c > BOUND - UNIT {
        -BOUND
    } else {
        c + UNIT
    }
}

/// The coordinate one step in the negative direction: a step that would
/// pass `-BOUND` lands on `BOUND` instead.
pub open spec fn backward(c: int) -> int {
    if c < -BOUND + UNIT {
        BOUND as int
    } else {
        c - UNIT
    }
}

/// Whether `c` is a coordinate of the field: a multiple of `UNIT` between
/// `-BOUND` and `BOUND`, both included.
pub open spec fn on_field(c: int) -> bool {
    -BOUND <= c <= BOUND && c % (UNIT as int) == 0
}

impl SnakeDirection {
    /// The heading that points the other way; `Stopped` has none and is
    /// its own.
    pub open spec fn reverse(self) -> SnakeDirection {
        match self {
            SnakeDirection::Up => SnakeDirection::Down,
            SnakeDirection::Down => SnakeDirection::Up,
            SnakeDirection::Left => SnakeDirection::Right,
            SnakeDirection::Right => SnakeDirection::Left,
            SnakeDirection::Stopped => SnakeDirection::Stopped,
        }
    }
}

impl SnakeUnit {
    /// The cell one step from `self` along `heading`. Only the coordinate
    /// on the heading's axis changes; `Stopped` leaves the cell as it is.
    pub open spec fn neighbor(self, heading: SnakeDirection) -> SnakeUnit {
        match heading {
            SnakeDirection::Up => SnakeUnit { x: self.x, y: forward(self.y as int) as i32 },
            SnakeDirection::Down => SnakeUnit { x: self.x, y: backward(self.y as int) as i32 },
            SnakeDirection::Right => SnakeUnit { x: forward(self.x as int) as i32, y: self.y },
            SnakeDirection::Left => SnakeUnit { x: backward(self.x as int) as i32, y: self.y },
            SnakeDirection::Stopped => self,
        }
    }

    /// Whether both coordinates lie on the field.
    pub open spec fn on_field(self) -> bool {
        on_field(self.x as int) && on_field(self.y as int)
    }

    /// Takes one step along `heading`, wrapping at the edge of the field.
    pub fn step(self, heading: SnakeDirection) -> (next: SnakeUnit)
        ensures
            next == self.neighbor(heading),
    {
        match heading {
            SnakeDirection::Up => SnakeUnit { x: self.x, y: step_forward(self.y) },
            SnakeDirection::Down => SnakeUnit { x: self.x, y: step_backward(self.y) },
            SnakeDirection::Right => SnakeUnit { x: step_forward(self.x), y: self.y },
            SnakeDirection::Left => SnakeUnit { x: step_backward(self.x), y: self.y },
            SnakeDirection::Stopped => self,
        }
    }
}

/// One step along an axis in the positive direction.
pub fn step_forward(c: i32) -> (next: i32)
    ensures
        next == forward(c as int),
        on_field(c as int) ==> on_field(next as int),
{
    if c > BOUND - UNIT {
        -BOUND
    } else {
        c + UNIT
    }
}

/// One step along an axis in the negative direction.
pub fn step_backward(c: i32) -> (next: i32)
    ensures
        next == backward(c as int),
        on_field(c as int) ==> on_field(next as int),
{
    if c < -BOUND + UNIT {
        BOUND
    } else {
        c - UNIT
    }
}

/// A coordinate past `BOUND - UNIT` steps forward onto `-BOUND`, every
/// other one moves up by `UNIT`; a coordinate before `-BOUND + UNIT`
/// steps backward onto `BOUND`, every other one moves down by `UNIT`.
/// On the field the edges are therefore joined: `BOUND` is followed by
/// `-BOUND`, and the two kinds of step undo each other.
pub proof fn lemma_wraparound(c: int)
    ensures
        c > BOUND - UNIT ==> forward(c) == -BOUND,
        c <= BOUND - UNIT ==> forward(c) == c + UNIT,
        c < -BOUND + UNIT ==> backward(c) == BOUND,
        c >= -BOUND + UNIT ==> backward(c) == c - UNIT,
        forward(BOUND as int) == -BOUND,
        backward(-BOUND as int) == BOUND,
        on_field(c) ==> on_field(forward(c)) && on_field(backward(c)),
        on_field(c) ==> backward(forward(c)) == c && forward(backward(c)) == c,
{
}

/// The cell `n` steps from `cell` along `heading`.
pub open spec fn shifted(cell: SnakeUnit, heading: SnakeDirection, n: nat) -> SnakeUnit
    decreases n,
{
    if n == 0 {
        cell
    } else {
        shifted(cell, heading, (n - 1) as nat).neighbor(heading)
    }
}

/// The coordinate of the field that `c` comes to when the field is walked
/// round and round: its edges are joined, so coordinates repeat every
/// `2 * BOUND + UNIT`.
#[verifier::opaque]
pub open spec fn wrapped(c: int) -> int {
    (c + BOUND) % (2 * BOUND + UNIT) - BOUND
}

/// The cell that lies `distance` from `cell` along `heading`, counted
/// round the joined edges of the field. Only the coordinate on the
/// heading's axis differs.
pub open spec fn moved(cell: SnakeUnit, heading: SnakeDirection, distance: int) -> SnakeUnit {
    match heading {
        SnakeDirection::Up => SnakeUnit { x: cell.x, y: wrapped(cell.y + distance) as i32 },
        SnakeDirection::Down => SnakeUnit { x: cell.x, y: wrapped(cell.y - distance) as i32 },
        SnakeDirection::Right => SnakeUnit { x: wrapped(cell.x + distance) as i32, y: cell.y },
        SnakeDirection::Left => SnakeUnit { x: wrapped(cell.x - distance) as i32, y: cell.y },
        SnakeDirection::Stopped => cell,
    }
}

/// What `wrapped` is in numbers: for a multiple `c` of `UNIT` it is the
/// multiple of `UNIT` from `-BOUND` to `BOUND` that differs from `c` by a
/// multiple of the field's period.
proof fn lemma_wrapped_value(c: int) -> (laps: int)
    requires
        c % 5 == 0,
    ensures
        wrapped(c) == c - 205 * laps,
        -100 <= wrapped(c) <= 100,
        wrapped(c) % 5 == 0,
{
    reveal(wrapped);
    assert(2 * BOUND + UNIT == 205 && BOUND == 100);
    let laps = (c + 100) / 205;
    let rest = (c + 100) % 205;
    assert(c + 100 == 205 * laps + rest);
    assert(rest == 5 * (c / 5 + 20 - 41 * laps));
    laps
}

/// The converse: a coordinate of the field that differs from `c` by a
/// multiple of the field's period is `wrapped(c)`.
proof fn lemma_wrapped_is(c: int, laps: int, place: int)
    requires
        -100 <= place <= 104,
        place == c - 205 * laps,
    ensures
        wrapped(c) == place,
{
    reveal(wrapped);
    assert(2 * BOUND + UNIT == 205 && BOUND == 100);
    vstd::arithmetic::div_mod::lemma_fundamental_div_mod_converse(
        c + 100,
        205,
        laps,
        place + 100,
    );
}

/// On the field, one step forward or backward is a shift by `UNIT` round
/// the joined edges, and stays on the field.
pub proof fn lemma_step_wraps(c: int)
    requires
        c % (UNIT as int) == 0,
    ensures
        on_field(wrapped(c)),
        on_field(c) ==> wrapped(c) == c,
        forward(wrapped(c)) == wrapped(c + UNIT),
        backward(wrapped(c)) == wrapped(c - UNIT),
{
    let laps = lemma_wrapped_value(c);
    let place = wrapped(c);
    if on_field(c) {
        lemma_wrapped_is(c, 0, c);
    }
    if place > 95 {
        assert(place == 100);
        lemma_wrapped_is(c + 5, laps + 1, -100);
    } else {
        lemma_wrapped_is(c + 5, laps, place + 5);
    }
    if place < -95 {
        assert(place == -100);
        lemma_wrapped_is(c - 5, laps - 1, 100);
    } else {
        lemma_wrapped_is(c - 5, laps, place - 5);
    }
}

/// A cell of the field shifted `n` steps along a heading has moved by
/// `n * UNIT` on the heading's axis, counted round the joined edges, and
/// not at all on the other axis.
pub proof fn lemma_shift_wraps(cell: SnakeUnit, heading: SnakeDirection, n: nat)
    requires
        cell.on_field(),
    ensures
        shifted(cell, heading, n).on_field(),
        shifted(cell, heading, n) == moved(cell, heading, n * UNIT),
    decreases n,
{
    if n == 0 {
        lemma_step_wraps(cell.x as int);
        lemma_step_wraps(cell.y as int);
    } else {
        let m = (n - 1) as nat;
        lemma_shift_wraps(cell, heading, m);
        let before = shifted(cell, heading, m);
        assert(shifted(cell, heading, n) == before.neighbor(heading));
        match heading {
            SnakeDirection::Up => {
                lemma_step_wraps(cell.y + m * UNIT);
                assert(cell.y + m * UNIT + UNIT == cell.y + n * UNIT);
                lemma_step_wraps(cell.y + n * UNIT);
            },
            SnakeDirection::Down => {
                lemma_step_wraps(cell.y - m * UNIT);
                assert(cell.y - m * UNIT - UNIT == cell.y - n * UNIT);
                lemma_step_wraps(cell.y - n * UNIT);
            },
            SnakeDirection::Right => {
                lemma_step_wraps(cell.x + m * UNIT);
                assert(cell.x + m * UNIT + UNIT == cell.x + n * UNIT);
                lemma_step_wraps(cell.x + n * UNIT);
            },
            SnakeDirection::Left => {
                lemma_step_wraps(cell.x - m * UNIT);
                assert(cell.x - m * UNIT - UNIT == cell.x - n * UNIT);
                lemma_step_wraps(cell.x - n * UNIT);
            },
            SnakeDirection::Stopped => {},
        }
    }
}

} // verus!
