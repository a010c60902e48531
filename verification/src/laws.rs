//! What holds of the game over single moves and over whole games.

use vstd::prelude::*;
use crate::control::{steered, Key};
use crate::geometry::{
    lemma_shift_wraps, lemma_wraparound, moved, shifted, SnakeDirection, SnakeUnit, UNIT,
};
use crate::snake::{lemma_move_keeps_well_formed, SnakeView, FOOD_SCORE};

verus! {

/// One round of the game loop: where the food lies during the tick, and
/// the key, if any, that is served after it.
pub struct Round {
    pub food: SnakeUnit,
    pub event: Option<Key>,
}

impl SnakeView {
    /// The snake after one round: a tick, then the key.
    pub open spec fn after_round(self, round: Round) -> SnakeView {
        self.ticked(round.food).turned_by(round.event)
    }

    /// The snake after the rounds of `rounds`, in order.
    pub open spec fn played(self, rounds: Seq<Round>) -> SnakeView
        decreases rounds.len(),
    {
        if rounds.len() == 0 {
            self
        } else {
            self.played(rounds.drop_last()).after_round(rounds.last())
        }
    }

    /// How many ticks of the game ate.
    pub open spec fn meals(self, rounds: Seq<Round>) -> nat
        decreases rounds.len(),
    {
        if rounds.len() == 0 {
            0
        } else {
            self.meals(rounds.drop_last()) + if self.played(rounds.drop_last()).eats(
                rounds.last().food,
            ) {
                1nat
            } else {
                0nat
            }
        }
    }

    /// How many ticks of the game kept the tail.
    pub open spec fn retentions(self, rounds: Seq<Round>) -> nat
        decreases rounds.len(),
    {
        if rounds.len() == 0 {
            0
        } else {
            self.retentions(rounds.drop_last()) + if self.played(rounds.drop_last()).retains(
                rounds.last().food,
            ) {
                1nat
            } else {
                0nat
            }
        }
    }

    /// Whether the body lies in a line along the heading: every segment is
    /// one step ahead of the segment behind it.
    pub open spec fn straight(self) -> bool {
        forall|i: int|
            0 <= i < self.body.len() - 1 ==> #[trigger] self.body[i] == self.body[i + 1].neighbor(
                self.direction,
            )
    }

    /// Whether every round of the game is a plain move straight on:
    /// nothing is eaten, the tail is not kept, the head does not run into
    /// the body, and no key changes the heading.
    pub open spec fn moves_straight_on(self, rounds: Seq<Round>) -> bool {
        forall|k: int|
            0 <= k < rounds.len() ==> {
                let then = #[trigger] self.played(rounds.take(k));
                &&& !then.eats(rounds[k].food)
                &&& !then.retains(rounds[k].food)
                &&& !then.collides(rounds[k].food)
                &&& steered(then.direction, rounds[k].event) == then.direction
            }
    }

    /// Whether the game starts with a meal and goes on without another
    /// meal and without a collision.
    pub open spec fn eats_once(self, rounds: Seq<Round>) -> bool {
        &&& rounds.len() > 0
        &&& self.eats(rounds[0].food)
        &&& forall|k: int|
            1 <= k < rounds.len() ==> !(#[trigger] self.played(rounds.take(k))).eats(
                rounds[k].food,
            )
        &&& forall|k: int|
            0 <= k < rounds.len() ==> !(#[trigger] self.played(rounds.take(k))).collides(
                rounds[k].food,
            )
    }
}

/// One more round of a game: the snake after `k + 1` rounds is the snake
/// after `k` rounds, taken through the round of index `k`.
proof fn lemma_played_one_more(snake: SnakeView, rounds: Seq<Round>, k: int)
    requires
        0 <= k < rounds.len(),
    ensures
        snake.played(rounds.take(k + 1)) == snake.played(rounds.take(k)).after_round(rounds[k]),
        snake.played(rounds.take(0)) == snake,
        snake.played(rounds.take(rounds.len() as int)) == snake.played(rounds),
{
    assert(rounds.take(k + 1).drop_last() =~= rounds.take(k));
    assert(rounds.take(rounds.len() as int) =~= rounds);
}

/// Over any game, whatever the food and the keys and however it ends, the
/// snake keeps a body, and no cell comes to occur twice in it.
pub proof fn lemma_game_keeps_well_formed(snake: SnakeView, rounds: Seq<Round>)
    requires
        snake.well_formed(),
    ensures
        snake.played(rounds).well_formed(),
        snake.played(rounds).body.no_duplicates(),
    decreases rounds.len(),
{
    if rounds.len() > 0 {
        lemma_game_keeps_well_formed(snake, rounds.drop_last());
        lemma_move_keeps_well_formed(snake.played(rounds.drop_last()), rounds.last().food);
    }
}

/// A snake that lies on the field stays on it over any game: a step from
/// a cell of the field, wrapped at the edge, ends on a cell of the field.
pub proof fn lemma_game_stays_on_field(snake: SnakeView, rounds: Seq<Round>)
    requires
        snake.on_field(),
    ensures
        snake.played(rounds).on_field(),
    decreases rounds.len(),
{
    if rounds.len() > 0 {
        lemma_game_stays_on_field(snake, rounds.drop_last());
        let then = snake.played(rounds.drop_last());
        let food = rounds.last().food;
        let now = then.ticked(food);
        if then.moving() {
            let rest = then.trimmed(food);
            assert(then.body[0].on_field());
            assert(then.next_head().on_field());
            assert forall|i: int| 0 <= i < now.body.len() implies (#[trigger] now.body[i]).on_field() by {
                if then.collides(food) {
                    assert(now.body[i] == then.body[i]);
                } else if i > 0 {
                    assert(now.body[i] == rest[i - 1]);
                    assert(rest[i - 1] == then.body[i - 1]);
                }
            }
        }
    }
}

/// A stopped snake stays as it is: no tick and no key moves it or gives
/// it a heading again.
pub proof fn lemma_stopped_stays_stopped(snake: SnakeView, rounds: Seq<Round>)
    requires
        snake.direction == SnakeDirection::Stopped,
    ensures
        snake.played(rounds) == snake,
    decreases rounds.len(),
{
    if rounds.len() > 0 {
        lemma_stopped_stays_stopped(snake, rounds.drop_last());
    }
}

/// No key turns a moving snake straight back on itself or stops it, and
/// a key either leaves the heading alone or sets the heading it asks for.
pub proof fn lemma_steering_never_reverses(current: SnakeDirection, event: Option<Key>)
    requires
        current != SnakeDirection::Stopped,
    ensures
        steered(current, event) != current.reverse(),
        steered(current, event) != SnakeDirection::Stopped,
        steered(current, event) == current || (event is Some && event->0.heading() == Some(
            steered(current, event),
        )),
{
}

/// A move that eats scores `FOOD_SCORE` and puts the food's cell at the
/// front of the queue; no other move scores. A move that keeps the tail
/// takes the oldest cell off the queue and, unless it collides, makes the
/// body one segment longer; a move that does neither leaves the length
/// of the body as it was. A tick differs from the move only in the
/// heading.
pub proof fn lemma_meal_and_growth(snake: SnakeView, food: SnakeUnit)
    requires
        snake.moving(),
    ensures
        snake.advanced(food).score == snake.score + if snake.eats(food) {
            FOOD_SCORE as int
        } else {
            0
        },
        snake.eats(food) ==> snake.fed(food).len() == snake.queue.len() + 1 && snake.fed(food)[0]
            == food,
        snake.advanced(food).queue.len() == snake.queue.len() + (if snake.eats(food) {
            1int
        } else {
            0int
        }) - (if snake.retains(food) {
            1int
        } else {
            0int
        }),
        snake.retains(food) && !snake.collides(food) ==> snake.advanced(food).body.len()
            == snake.body.len() + 1,
        !snake.retains(food) && !snake.collides(food) ==> snake.advanced(food).body.len()
            == snake.body.len(),
        snake.ticked(food).score == snake.advanced(food).score,
        snake.ticked(food).queue == snake.advanced(food).queue,
        snake.ticked(food).body == snake.advanced(food).body,
{
}

/// Over any game the queue holds one cell for every meal that no kept
/// tail has answered yet: its length is what it was, plus the meals, less
/// the ticks that kept the tail. The score rises by `FOOD_SCORE` for
/// every meal.
pub proof fn lemma_queue_counts_unanswered_meals(snake: SnakeView, rounds: Seq<Round>)
    ensures
        snake.played(rounds).queue.len() + snake.retentions(rounds) == snake.queue.len()
            + snake.meals(rounds),
        snake.retentions(rounds) <= snake.queue.len() + snake.meals(rounds),
        snake.played(rounds).score == snake.score + FOOD_SCORE * snake.meals(rounds),
        snake.meals(rounds) <= rounds.len(),
    decreases rounds.len(),
{
    if rounds.len() > 0 {
        lemma_queue_counts_unanswered_meals(snake, rounds.drop_last());
        let then = snake.played(rounds.drop_last());
        if then.moving() {
            lemma_meal_and_growth(then, rounds.last().food);
        }
    }
}

/// While the eaten cell travels down the body: after `k` rounds of a game
/// that `lemma_growth_follows_meal` speaks of, with `k` less than the
/// length of the body, the eaten cell is segment `k`, it alone is queued,
/// and the body has its old length.
proof fn lemma_meal_travels(snake: SnakeView, rounds: Seq<Round>, k: int)
    requires
        snake.well_formed(),
        snake.queue.len() == 0,
        snake.eats_once(rounds),
        rounds.len() == snake.body.len(),
        1 <= k < rounds.len(),
    ensures
        snake.played(rounds.take(k)).well_formed(),
        snake.played(rounds.take(k)).moving(),
        snake.played(rounds.take(k)).body.len() == snake.body.len(),
        snake.played(rounds.take(k)).body[k] == rounds[0].food,
        snake.played(rounds.take(k)).queue == seq![rounds[0].food],
        snake.played(rounds.take(k)).score == snake.score + FOOD_SCORE,
    decreases k,
{
    let before = snake.played(rounds.take(k - 1));
    let food = rounds[k - 1].food;
    lemma_played_one_more(snake, rounds, k - 1);
    let after = before.ticked(food);
    if k == 1 {
        assert(before == snake);
        assert(snake.fed(food) =~= seq![rounds[0].food]);
    } else {
        lemma_meal_travels(snake, rounds, k - 1);
        assert(!before.eats(food));
    }
    lemma_move_keeps_well_formed(before, food);
    assert(before.body[k - 1] == rounds[0].food);
    assert(before.body.last() == before.body[rounds.len() - 1]);
    assert(!before.retains(food));
    assert(!before.collides(food));
    assert(after.body =~= seq![before.next_head()] + before.body.drop_last());
    assert(after.body[k] == before.body[k - 1]);
    lemma_steering_never_reverses(after.direction, rounds[k - 1].event);
}

/// A meal shows as growth once the eaten cell has travelled down the
/// body. A sound snake with nothing queued that eats, and then goes on
/// without another meal and without a collision, however it is steered,
/// keeps its length and keeps the eaten cell queued for as many ticks,
/// the meal's included, as the body is long less one; the tick after that
/// keeps the tail, which lies on the eaten cell, makes the body exactly
/// one segment longer and empties the queue. The score is `FOOD_SCORE`
/// higher from the meal on.
pub proof fn lemma_growth_follows_meal(snake: SnakeView, rounds: Seq<Round>)
    requires
        snake.well_formed(),
        snake.queue.len() == 0,
        snake.eats_once(rounds),
        rounds.len() == snake.body.len(),
    ensures
        forall|k: int|
            1 <= k < rounds.len() ==> {
                let then = #[trigger] snake.played(rounds.take(k));
                &&& then.body.len() == snake.body.len()
                &&& then.queue == seq![rounds[0].food]
                &&& then.score == snake.score + FOOD_SCORE
            },
        snake.played(rounds).body.len() == snake.body.len() + 1,
        snake.played(rounds).body.last() == rounds[0].food,
        snake.played(rounds).queue.len() == 0,
        snake.played(rounds).score == snake.score + FOOD_SCORE,
{
    assert forall|k: int| 1 <= k < rounds.len() implies {
        let then = #[trigger] snake.played(rounds.take(k));
        &&& then.body.len() == snake.body.len()
        &&& then.queue == seq![rounds[0].food]
        &&& then.score == snake.score + FOOD_SCORE
    } by {
        lemma_meal_travels(snake, rounds, k);
    }
    let last = rounds.len() - 1;
    lemma_played_one_more(snake, rounds, last);
    let before = snake.played(rounds.take(last));
    let food = rounds[last].food;
    if last == 0 {
        assert(before == snake);
        assert(snake.fed(food) =~= seq![rounds[0].food]);
    } else {
        lemma_meal_travels(snake, rounds, last);
        assert(!before.eats(food));
    }
    assert(before.body.last() == rounds[0].food);
    assert(before.fed(food).last() == rounds[0].food);
    assert(before.retains(food));
    assert(!before.collides(food));
    let after = before.ticked(food);
    assert(after.body =~= seq![before.next_head()] + before.body);
    assert(after.queue =~= Seq::<SnakeUnit>::empty());
}

/// A sound snake that lies on the field in a line along its heading does
/// not run into itself on a move that drops the tail: the cell ahead of
/// the head is free.
pub proof fn lemma_straight_snake_moves_freely(snake: SnakeView, food: SnakeUnit)
    requires
        snake.moving(),
        snake.well_formed(),
        snake.on_field(),
        snake.straight(),
        !snake.retains(food),
    ensures
        !snake.collides(food),
{
    let rest = snake.body.drop_last();
    if rest.contains(snake.next_head()) {
        let i = choose|i: int| 0 <= i < rest.len() && rest[i] == snake.next_head();
        assert(snake.body[i] == snake.body[i + 1].neighbor(snake.direction));
        assert(snake.body[0].on_field() && snake.body[i + 1].on_field());
        lemma_wraparound(snake.body[0].x as int);
        lemma_wraparound(snake.body[0].y as int);
        lemma_wraparound(snake.body[i + 1].x as int);
        lemma_wraparound(snake.body[i + 1].y as int);
        assert(snake.body[0] == snake.body[i + 1]);
    }
}

/// A snake that lies in a line along its heading and moves straight on
/// for `rounds.len()` rounds keeps its length and its heading, still lies
/// in a line, and has every segment that many steps further along the
/// heading.
pub proof fn lemma_straight_run_shifts_body(snake: SnakeView, rounds: Seq<Round>)
    requires
        snake.moving(),
        snake.straight(),
        snake.moves_straight_on(rounds),
    ensures
        snake.played(rounds).body.len() == snake.body.len(),
        snake.played(rounds).direction == snake.direction,
        snake.played(rounds).queue == snake.queue,
        snake.played(rounds).score == snake.score,
        snake.played(rounds).straight(),
        forall|i: int|
            0 <= i < snake.body.len() ==> #[trigger] snake.played(rounds).body[i] == shifted(
                snake.body[i],
                snake.direction,
                rounds.len(),
            ),
    decreases rounds.len(),
{
    if rounds.len() > 0 {
        let earlier = rounds.drop_last();
        let last = (rounds.len() - 1) as int;
        assert forall|k: int| 0 <= k < earlier.len() implies {
            let then = #[trigger] snake.played(earlier.take(k));
            &&& !then.eats(earlier[k].food)
            &&& !then.retains(earlier[k].food)
            &&& !then.collides(earlier[k].food)
            &&& steered(then.direction, earlier[k].event) == then.direction
        } by {
            assert(earlier.take(k) =~= rounds.take(k));
            let then = snake.played(rounds.take(k));
            assert(!then.eats(rounds[k].food));
        }
        lemma_straight_run_shifts_body(snake, earlier);
        let then = snake.played(earlier);
        assert(rounds.take(last) =~= earlier);
        assert(then == snake.played(rounds.take(last)));
        let food = rounds.last().food;
        assert(!then.eats(food) && !then.retains(food) && !then.collides(food));
        let now = then.after_round(rounds.last());
        assert(now == snake.played(rounds));
        assert(now.body =~= seq![then.next_head()] + then.body.drop_last());
        assert forall|i: int| 0 <= i < snake.body.len() implies #[trigger] now.body[i] == shifted(
            snake.body[i],
            snake.direction,
            rounds.len(),
        ) by {
            if i > 0 {
                assert(now.body[i] == then.body[i - 1]);
                assert(then.body[i - 1] == then.body[i - 1 + 1].neighbor(then.direction));
            }
            assert(then.body[i] == shifted(snake.body[i], snake.direction, earlier.len()));
        }
        assert forall|i: int| 0 <= i < now.body.len() - 1 implies #[trigger] now.body[i]
            == now.body[i + 1].neighbor(now.direction) by {
            assert(now.body[i + 1] == then.body[i]);
            if i > 0 {
                assert(now.body[i] == then.body[i - 1]);
                assert(then.body[i - 1] == then.body[i - 1 + 1].neighbor(then.direction));
            }
        }
    }
}

/// On the field the same in numbers: a snake that lies in a line along
/// its heading and moves straight on for `rounds.len()` rounds keeps its
/// length, and every segment has moved by `rounds.len() * UNIT` along the
/// heading's axis, counted round the joined edges of the field.
pub proof fn lemma_straight_run_wraps(snake: SnakeView, rounds: Seq<Round>)
    requires
        snake.moving(),
        snake.straight(),
        snake.on_field(),
        snake.moves_straight_on(rounds),
    ensures
        snake.played(rounds).body.len() == snake.body.len(),
        forall|i: int|
            0 <= i < snake.body.len() ==> #[trigger] snake.played(rounds).body[i] == moved(
                snake.body[i],
                snake.direction,
                rounds.len() * UNIT,
            ),
{
    lemma_straight_run_shifts_body(snake, rounds);
    assert forall|i: int| 0 <= i < snake.body.len() implies #[trigger] snake.played(rounds).body[i]
        == moved(snake.body[i], snake.direction, rounds.len() * UNIT) by {
        assert(snake.body[i].on_field());
        lemma_shift_wraps(snake.body[i], snake.direction, rounds.len());
    }
}

} // verus!
