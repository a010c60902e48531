use snake_game::control::{event_handler, tick, GameState, Key, QUIT};
use snake_game::geometry::{SnakeDirection, SnakeUnit, BOUND, RANGE, UNIT};
use snake_game::snake::{Snake, FOOD_SCORE};

fn cell(x: i32, y: i32) -> SnakeUnit {
    SnakeUnit { x, y }
}

fn cells(points: &[(i32, i32)]) -> Vec<SnakeUnit> {
    points.iter().map(|p| cell(p.0, p.1)).collect()
}

fn far_food() -> SnakeUnit {
    cell(-50, -50)
}

fn has_duplicates(body: &[SnakeUnit]) -> bool {
    for i in 0..body.len() {
        for j in (i + 1)..body.len() {
            if body[i] == body[j] {
                return true;
            }
        }
    }
    false
}

#[test]
fn constants_describe_the_field() {
    assert_eq!(UNIT, 5);
    assert_eq!(RANGE, 20);
    assert_eq!(BOUND, 100);
    assert_eq!(FOOD_SCORE, 10);
}

#[test]
fn new_snake_is_a_column_heading_up() {
    let snake = Snake::new();
    assert_eq!(snake.shape, cells(&[(0, 20), (0, 15), (0, 10), (0, 5), (0, 0)]));
    assert_eq!(snake.direction, SnakeDirection::Up);
    assert!(snake.eaten.is_empty());
    assert_eq!(snake.score, 0);
}

#[test]
fn first_tick_advances_head_and_drops_tail() {
    let mut snake = Snake::new();
    let mut food = far_food();
    let result = snake.update(&mut food);
    assert!(result.is_ok());
    assert_eq!(snake.shape, cells(&[(0, 25), (0, 20), (0, 15), (0, 10), (0, 5)]));
    assert_eq!(snake.direction, SnakeDirection::Up);
    assert_eq!(snake.score, 0);
    assert!(snake.eaten.is_empty());
    assert_eq!(food, far_food());
}

#[test]
fn food_under_the_head_is_eaten() {
    let mut snake = Snake::new();
    let before = snake.shape.clone();
    let mut food = cell(0, 20);
    let result = snake.update(&mut food);
    assert!(result.is_ok());
    assert_eq!(snake.score, 10);
    assert_eq!(snake.eaten, cells(&[(0, 20)]));
    assert_eq!(snake.shape.len(), 5);
    assert_eq!(snake.shape, cells(&[(0, 25), (0, 20), (0, 15), (0, 10), (0, 5)]));
    assert_ne!(food, cell(0, 20));
    assert!(!before.contains(&food));
    assert!(-BOUND <= food.x && food.x < BOUND && food.x % UNIT == 0);
    assert!(-BOUND <= food.y && food.y < BOUND && food.y % UNIT == 0);
}

#[test]
fn growth_shows_when_the_tail_reaches_the_eaten_cell() {
    let mut snake = Snake::new();
    let mut food = cell(0, 20);
    assert!(snake.update(&mut food).is_ok());
    food = far_food();
    for _ in 0..3 {
        assert!(snake.update(&mut food).is_ok());
        assert_eq!(snake.shape.len(), 5);
        assert_eq!(snake.eaten.len(), 1);
    }
    assert_eq!(snake.shape.last(), Some(&cell(0, 20)));
    assert!(snake.update(&mut food).is_ok());
    assert_eq!(snake.shape.len(), 6);
    assert!(snake.eaten.is_empty());
    assert_eq!(
        snake.shape,
        cells(&[(0, 45), (0, 40), (0, 35), (0, 30), (0, 25), (0, 20)])
    );
    assert!(snake.update(&mut food).is_ok());
    assert_eq!(snake.shape.len(), 6);
    assert_eq!(snake.score, 10);
}

#[test]
fn single_cell_snake_grows_in_the_tick_it_eats() {
    let mut snake = Snake {
        shape: cells(&[(10, 10)]),
        direction: SnakeDirection::Right,
        eaten: Vec::new(),
        score: 30,
    };
    let mut food = cell(10, 10);
    assert!(snake.update(&mut food).is_ok());
    assert_eq!(snake.shape, cells(&[(15, 10), (10, 10)]));
    assert!(snake.eaten.is_empty());
    assert_eq!(snake.score, 40);
}

#[test]
fn queue_is_served_oldest_first() {
    let mut snake = Snake {
        shape: cells(&[(0, 10), (0, 5), (0, 0)]),
        direction: SnakeDirection::Up,
        eaten: cells(&[(0, 5), (0, 0)]),
        score: 20,
    };
    let mut food = far_food();
    assert!(snake.update(&mut food).is_ok());
    assert_eq!(snake.shape, cells(&[(0, 15), (0, 10), (0, 5), (0, 0)]));
    assert_eq!(snake.eaten, cells(&[(0, 5)]));
    assert!(snake.update(&mut food).is_ok());
    assert_eq!(snake.shape, cells(&[(0, 20), (0, 15), (0, 10), (0, 5)]));
    assert_eq!(snake.eaten, cells(&[(0, 5)]));
    assert!(snake.update(&mut food).is_ok());
    assert_eq!(snake.shape, cells(&[(0, 25), (0, 20), (0, 15), (0, 10), (0, 5)]));
    assert!(snake.eaten.is_empty());
    assert_eq!(snake.score, 20);
}

#[test]
fn stopped_snake_does_not_move() {
    let mut snake = Snake::new();
    snake.direction = SnakeDirection::Stopped;
    let mut food = cell(0, 20);
    assert!(snake.update(&mut food).is_ok());
    assert_eq!(snake.shape, cells(&[(0, 20), (0, 15), (0, 10), (0, 5), (0, 0)]));
    assert_eq!(snake.score, 0);
    assert!(snake.eaten.is_empty());
    assert_eq!(food, cell(0, 20));
}

#[test]
fn each_heading_moves_along_its_own_axis() {
    for (heading, expected) in [
        (SnakeDirection::Up, cell(10, 15)),
        (SnakeDirection::Down, cell(10, 5)),
        (SnakeDirection::Right, cell(15, 10)),
        (SnakeDirection::Left, cell(5, 10)),
        (SnakeDirection::Stopped, cell(10, 10)),
    ] {
        assert_eq!(cell(10, 10).step(heading), expected);
    }
}

#[test]
fn steps_wrap_only_past_the_bound() {
    assert_eq!(cell(0, 95).step(SnakeDirection::Up), cell(0, 100));
    assert_eq!(cell(0, 100).step(SnakeDirection::Up), cell(0, -100));
    assert_eq!(cell(0, -95).step(SnakeDirection::Down), cell(0, -100));
    assert_eq!(cell(0, -100).step(SnakeDirection::Down), cell(0, 100));
    assert_eq!(cell(95, 0).step(SnakeDirection::Right), cell(100, 0));
    assert_eq!(cell(100, 0).step(SnakeDirection::Right), cell(-100, 0));
    assert_eq!(cell(-95, 0).step(SnakeDirection::Left), cell(-100, 0));
    assert_eq!(cell(-100, 0).step(SnakeDirection::Left), cell(100, 0));
}

#[test]
fn head_wraps_across_the_top_edge() {
    let mut snake = Snake {
        shape: cells(&[(0, 100), (0, 95), (0, 90)]),
        direction: SnakeDirection::Up,
        eaten: Vec::new(),
        score: 0,
    };
    let mut food = far_food();
    assert!(snake.update(&mut food).is_ok());
    assert_eq!(snake.shape, cells(&[(0, -100), (0, 100), (0, 95)]));
}

#[test]
fn straight_run_shifts_every_segment() {
    let mut snake = Snake::new();
    let mut food = far_food();
    for _ in 0..7 {
        assert!(snake.update(&mut food).is_ok());
    }
    assert_eq!(snake.shape, cells(&[(0, 55), (0, 50), (0, 45), (0, 40), (0, 35)]));
    for _ in 0..10 {
        assert!(snake.update(&mut food).is_ok());
    }
    assert_eq!(snake.shape, cells(&[(0, -100), (0, 100), (0, 95), (0, 90), (0, 85)]));
}

#[test]
fn a_full_lap_returns_the_snake_to_its_place() {
    let mut snake = Snake::new();
    let mut food = far_food();
    for _ in 0..41 {
        assert!(snake.update(&mut food).is_ok());
    }
    assert_eq!(snake.shape, Snake::new().shape);
}

#[test]
fn tight_loop_collides_and_tick_stops_the_snake() {
    let mut snake = Snake::new();
    let mut food = far_food();
    assert_eq!(event_handler(&mut snake, Some(Key::Left)), GameState::Running);
    tick(&mut snake, &mut food);
    assert_eq!(event_handler(&mut snake, Some(Key::Down)), GameState::Running);
    tick(&mut snake, &mut food);
    assert_eq!(snake.shape, cells(&[(-5, 15), (-5, 20), (0, 20), (0, 15), (0, 10)]));
    assert_eq!(event_handler(&mut snake, Some(Key::Right)), GameState::Running);
    assert_eq!(snake.direction, SnakeDirection::Right);
    tick(&mut snake, &mut food);
    assert_eq!(snake.direction, SnakeDirection::Stopped);
    assert_eq!(snake.shape, cells(&[(-5, 15), (-5, 20), (0, 20), (0, 15)]));
    tick(&mut snake, &mut food);
    assert_eq!(snake.shape, cells(&[(-5, 15), (-5, 20), (0, 20), (0, 15)]));
    assert_eq!(event_handler(&mut snake, Some(Key::Up)), GameState::Running);
    assert_eq!(snake.direction, SnakeDirection::Stopped);
}

#[test]
fn update_reports_the_collision_and_keeps_the_heading() {
    let mut snake = Snake {
        shape: cells(&[(-5, 15), (-5, 20), (0, 20), (0, 15), (0, 10)]),
        direction: SnakeDirection::Right,
        eaten: Vec::new(),
        score: 0,
    };
    let mut food = far_food();
    assert!(snake.update(&mut food).is_err());
    assert_eq!(snake.direction, SnakeDirection::Right);
    assert_eq!(snake.shape, cells(&[(-5, 15), (-5, 20), (0, 20), (0, 15)]));
}

#[test]
fn head_may_follow_the_departing_tail() {
    let mut snake = Snake {
        shape: cells(&[(0, 0), (0, 5), (5, 5), (5, 0)]),
        direction: SnakeDirection::Right,
        eaten: Vec::new(),
        score: 0,
    };
    let mut food = far_food();
    assert!(snake.update(&mut food).is_ok());
    assert_eq!(snake.shape, cells(&[(5, 0), (0, 0), (0, 5), (5, 5)]));
}

#[test]
fn body_never_holds_a_cell_twice() {
    let keys = [
        None,
        Some(Key::Left),
        None,
        Some(Key::Down),
        None,
        None,
        Some(Key::Right),
        None,
        Some(Key::Up),
        None,
    ];
    let mut snake = Snake::new();
    let mut food = cell(0, 20);
    for key in keys.iter().cycle().take(200) {
        tick(&mut snake, &mut food);
        assert!(!has_duplicates(&snake.shape));
        if snake.shape[0].x % 15 == 0 {
            food = snake.shape[0];
        }
        event_handler(&mut snake, *key);
    }
}

#[test]
fn queue_length_is_meals_less_retentions() {
    let mut snake = Snake::new();
    let mut food = far_food();
    let mut meals = 0;
    let mut kept = 0;
    for round in 0..60 {
        food = if round % 4 == 0 { snake.shape[0] } else { far_food() };
        let ate = snake.shape[0] == food;
        let length = snake.shape.len();
        let score = snake.score;
        assert!(snake.update(&mut food).is_ok());
        if ate {
            meals += 1;
            assert_eq!(snake.score, score + 10);
        } else {
            assert_eq!(snake.score, score);
        }
        if snake.shape.len() == length + 1 {
            kept += 1;
        } else {
            assert_eq!(snake.shape.len(), length);
        }
        assert_eq!(snake.eaten.len(), meals - kept);
    }
    assert_eq!(meals, 15);
    assert_eq!(snake.score, 150);
}

#[test]
fn occupied_tells_body_cells_from_others() {
    let snake = Snake::new();
    assert!(snake.occupied(&cell(0, 0)));
    assert!(snake.occupied(&cell(0, 20)));
    assert!(!snake.occupied(&cell(0, 25)));
    assert!(!snake.occupied(&cell(5, 0)));
    let nothing = Snake {
        shape: Vec::new(),
        direction: SnakeDirection::Stopped,
        eaten: Vec::new(),
        score: 0,
    };
    assert!(!nothing.occupied(&cell(0, 0)));
}

#[test]
fn reverse_input_is_rejected() {
    let mut snake = Snake::new();
    assert_eq!(event_handler(&mut snake, Some(Key::Down)), GameState::Running);
    assert_eq!(snake.direction, SnakeDirection::Up);
    assert_eq!(snake.shape, Snake::new().shape);
}

#[test]
fn arrow_keys_turn_the_snake_sideways_only() {
    let headings = [
        (Key::Up, SnakeDirection::Up),
        (Key::Down, SnakeDirection::Down),
        (Key::Left, SnakeDirection::Left),
        (Key::Right, SnakeDirection::Right),
    ];
    for (_, current) in headings {
        for (key, wanted) in headings {
            let mut snake = Snake::new();
            snake.direction = current;
            assert_eq!(event_handler(&mut snake, Some(key)), GameState::Running);
            let vertical = |d: SnakeDirection| d == SnakeDirection::Up || d == SnakeDirection::Down;
            if vertical(current) == vertical(wanted) {
                assert_eq!(snake.direction, current);
            } else {
                assert_eq!(snake.direction, wanted);
            }
        }
    }
}

#[test]
fn quit_key_ends_the_game() {
    let mut snake = Snake::new();
    assert_eq!(event_handler(&mut snake, Some(Key::Char('q'))), GameState::Done);
    assert_eq!(snake.direction, SnakeDirection::Up);
    assert_eq!(snake.shape, Snake::new().shape);
    assert_eq!(snake.score, 0);
}

#[test]
fn other_keys_and_no_key_change_nothing() {
    for event in [None, Some(Key::Other), Some(Key::Char('x')), Some(Key::Char('Q'))] {
        let mut snake = Snake::new();
        snake.direction = SnakeDirection::Left;
        assert_eq!(event_handler(&mut snake, event), GameState::Running);
        assert_eq!(snake.direction, SnakeDirection::Left);
    }
}

#[test]
fn keys_are_served_one_per_tick_in_order() {
    let mut snake = Snake::new();
    let mut food = far_food();
    let mut pending = vec![Key::Left, Key::Down];
    pending.reverse();
    tick(&mut snake, &mut food);
    event_handler(&mut snake, pending.pop());
    assert_eq!(snake.direction, SnakeDirection::Left);
    tick(&mut snake, &mut food);
    event_handler(&mut snake, pending.pop());
    assert_eq!(snake.direction, SnakeDirection::Down);
    tick(&mut snake, &mut food);
    assert_eq!(event_handler(&mut snake, pending.pop()), GameState::Running);
    assert_eq!(snake.shape[0], cell(-5, 20));
}

#[test]
fn collision_error_describes_itself() {
    let mut snake = Snake {
        shape: cells(&[(-5, 15), (-5, 20), (0, 20), (0, 15), (0, 10)]),
        direction: SnakeDirection::Right,
        eaten: Vec::new(),
        score: 0,
    };
    let mut food = far_food();
    match snake.update(&mut food) {
        Err(error) => assert_eq!(error.message(), "There was a collision detected"),
        Ok(()) => panic!("the head ran into the body"),
    }
}

#[test]
fn only_lower_case_q_quits() {
    assert!(Key::Char('q').is_quit());
    assert!(!Key::Char('Q').is_quit());
    assert!(!Key::Char('x').is_quit());
    assert!(!Key::Up.is_quit());
    assert!(!Key::Other.is_quit());
    assert_eq!(QUIT, 'q');
}

#[test]
fn eating_while_colliding_still_scores() {
    let mut snake = Snake {
        shape: cells(&[(-5, 15), (-5, 20), (0, 20), (0, 15), (0, 10)]),
        direction: SnakeDirection::Right,
        eaten: Vec::new(),
        score: 0,
    };
    let mut food = cell(-5, 15);
    tick(&mut snake, &mut food);
    assert_eq!(snake.direction, SnakeDirection::Stopped);
    assert_eq!(snake.score, 10);
    assert_eq!(snake.eaten, cells(&[(-5, 15)]));
    assert_ne!(food, cell(-5, 15));
}
