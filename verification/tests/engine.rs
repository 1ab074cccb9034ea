use std::collections::VecDeque;

use snake_engine::cell::Cell;
use snake_engine::direction::Direction;
use snake_engine::game::delay_for_score;
use snake_engine::game::free_cells;
use snake_engine::game::SnakeGame;
use snake_engine::game::GRID_HEIGHT;
use snake_engine::game::GRID_WIDTH;
use snake_engine::status::GameStatus;

fn cell(x: i32, y: i32) -> Cell {
    Cell { x, y }
}

fn snake_of(cells: &[(i32, i32)]) -> VecDeque<Cell> {
    let mut body = VecDeque::new();
    for &(x, y) in cells {
        body.push_back(cell(x, y));
    }
    body
}

fn body_cells(game: &SnakeGame) -> Vec<(i32, i32)> {
    game.snake_cells().iter().map(|c| (c.x, c.y)).collect()
}

fn running_game(cells: &[(i32, i32)], food: (i32, i32), score: u32, high: u32) -> SnakeGame {
    SnakeGame::with_state(
        GRID_WIDTH,
        GRID_HEIGHT,
        snake_of(cells),
        Direction::Right,
        Direction::Right,
        cell(food.0, food.1),
        GameStatus::Running,
        score,
        high,
        11,
    )
    .expect("the description should be valid")
}

#[test]
fn opposite_pairs() {
    assert!(Direction::Up.is_opposite(Direction::Down));
    assert!(Direction::Down.is_opposite(Direction::Up));
    assert!(Direction::Left.is_opposite(Direction::Right));
    assert!(Direction::Right.is_opposite(Direction::Left));
    assert!(!Direction::Up.is_opposite(Direction::Left));
    assert!(!Direction::Up.is_opposite(Direction::Right));
    assert!(!Direction::Up.is_opposite(Direction::Up));
    assert!(!Direction::Left.is_opposite(Direction::Down));
}

#[test]
fn direction_vectors() {
    assert_eq!(Direction::Up.vector(), (0, -1));
    assert_eq!(Direction::Down.vector(), (0, 1));
    assert_eq!(Direction::Left.vector(), (-1, 0));
    assert_eq!(Direction::Right.vector(), (1, 0));
}

#[test]
fn cell_offset() {
    assert_eq!(cell(3, 4).offset(Direction::Up), cell(3, 3));
    assert_eq!(cell(3, 4).offset(Direction::Down), cell(3, 5));
    assert_eq!(cell(3, 4).offset(Direction::Left), cell(2, 4));
    assert_eq!(cell(3, 4).offset(Direction::Right), cell(4, 4));
}

#[test]
fn new_game_is_ready_and_canonical() {
    let game = SnakeGame::new_seeded(7);
    assert_eq!(game.status(), GameStatus::Ready);
    assert_eq!(game.score(), 0);
    assert_eq!(game.high_score(), 0);
    assert_eq!(game.board_dimensions(), (24, 20));
    assert_eq!(body_cells(&game), vec![(12, 10), (11, 10), (10, 10), (9, 10)]);
    let food = game.food_cell();
    assert!(0 <= food.x && food.x < 24 && 0 <= food.y && food.y < 20);
    assert!(!game.snake_cells().contains(&food));
}

#[test]
fn same_seed_same_food() {
    let a = SnakeGame::new_seeded(42);
    let b = SnakeGame::new_seeded(42);
    assert_eq!(a.food_cell(), b.food_cell());
}

#[test]
fn reversal_is_rejected_while_longer_than_one() {
    let mut game = SnakeGame::new_seeded(3);
    game.handle_restart();
    assert_eq!(game.status(), GameStatus::Running);
    game.queue_direction(Direction::Left);
    assert_eq!(game.next_direction, Direction::Right);
    game.queue_direction(Direction::Up);
    assert_eq!(game.next_direction, Direction::Up);
}

#[test]
fn turns_are_buffered_while_paused() {
    let mut game = SnakeGame::new_seeded(3);
    game.handle_restart();
    game.handle_toggle_pause();
    assert_eq!(game.status(), GameStatus::Paused);
    game.queue_direction(Direction::Down);
    assert_eq!(game.next_direction, Direction::Down);
    // the guard judges the current direction, which is still Right
    game.queue_direction(Direction::Left);
    assert_eq!(game.next_direction, Direction::Down);
}

#[test]
fn turns_are_ignored_in_ready_and_game_over() {
    let mut game = SnakeGame::new_seeded(3);
    game.queue_direction(Direction::Up);
    assert_eq!(game.next_direction, Direction::Right);
    let mut over = running_game(&[(23, 10), (22, 10), (21, 10), (20, 10)], (5, 5), 0, 0);
    over.tick();
    assert_eq!(over.status(), GameStatus::GameOver);
    over.queue_direction(Direction::Up);
    assert_eq!(over.next_direction, Direction::Right);
}

#[test]
fn tick_outside_running_changes_nothing() {
    let mut game = SnakeGame::new_seeded(9);
    let before = (body_cells(&game), game.food_cell(), game.score(), game.direction);
    game.tick();
    assert_eq!(game.status(), GameStatus::Ready);
    assert_eq!((body_cells(&game), game.food_cell(), game.score(), game.direction), before);

    game.handle_restart();
    game.handle_toggle_pause();
    let before = (body_cells(&game), game.food_cell(), game.score(), game.direction);
    game.tick();
    assert_eq!(game.status(), GameStatus::Paused);
    assert_eq!((body_cells(&game), game.food_cell(), game.score(), game.direction), before);

    let mut over = running_game(&[(23, 10), (22, 10), (21, 10), (20, 10)], (5, 5), 0, 0);
    over.tick();
    assert_eq!(over.status(), GameStatus::GameOver);
    let before = (body_cells(&over), over.food_cell(), over.score(), over.direction);
    over.tick();
    assert_eq!((body_cells(&over), over.food_cell(), over.score(), over.direction), before);
}

#[test]
fn plain_move_shifts_body_and_drops_tail() {
    let mut game = running_game(&[(11, 10), (10, 10), (9, 10), (8, 10)], (5, 5), 0, 0);
    game.tick();
    assert_eq!(body_cells(&game), vec![(12, 10), (11, 10), (10, 10), (9, 10)]);
    assert_eq!(game.status(), GameStatus::Running);
    assert_eq!(game.score(), 0);
}

#[test]
fn several_moves_shift_along_the_directions() {
    let mut game = running_game(&[(11, 10), (10, 10), (9, 10), (8, 10)], (0, 0), 0, 0);
    game.tick();
    game.queue_direction(Direction::Up);
    game.tick();
    game.queue_direction(Direction::Left);
    game.tick();
    assert_eq!(body_cells(&game), vec![(11, 9), (12, 9), (12, 10), (11, 10)]);
    assert_eq!(game.snake_cells().len(), 4);
    assert_eq!(game.status(), GameStatus::Running);
}

#[test]
fn eating_grows_scores_and_relocates_food() {
    let mut game = running_game(&[(11, 10), (10, 10), (9, 10), (8, 10)], (12, 10), 0, 0);
    game.tick();
    assert_eq!(game.score(), 1);
    assert_eq!(game.high_score(), 1);
    assert_eq!(
        body_cells(&game),
        vec![(12, 10), (11, 10), (10, 10), (9, 10), (8, 10)]
    );
    assert_eq!(game.status(), GameStatus::Running);
    let food = game.food_cell();
    assert!(0 <= food.x && food.x < 24 && 0 <= food.y && food.y < 20);
    assert!(!game.snake_cells().contains(&food));
}

#[test]
fn eating_never_lowers_the_high_score() {
    let mut game = running_game(&[(11, 10), (10, 10), (9, 10), (8, 10)], (12, 10), 0, 9);
    game.tick();
    assert_eq!(game.score(), 1);
    assert_eq!(game.high_score(), 9);
}

#[test]
fn hitting_a_wall_ends_the_game() {
    let mut game = running_game(&[(23, 10), (22, 10), (21, 10), (20, 10)], (5, 5), 0, 0);
    game.tick();
    assert_eq!(game.status(), GameStatus::GameOver);
    assert_eq!(body_cells(&game), vec![(23, 10), (22, 10), (21, 10), (20, 10)]);
    assert_eq!(game.score(), 0);
    assert_eq!(game.food_cell(), cell(5, 5));
}

#[test]
fn hitting_the_tail_cell_ends_the_game() {
    // The collision check judges the pre-tick body, so the tail cell the
    // snake is about to vacate still blocks it.
    let mut game = SnakeGame::with_state(
        GRID_WIDTH,
        GRID_HEIGHT,
        snake_of(&[(2, 1), (1, 1), (1, 2), (2, 2)]),
        Direction::Down,
        Direction::Down,
        cell(5, 5),
        GameStatus::Running,
        0,
        0,
        11,
    )
    .expect("the description should be valid");
    game.tick();
    assert_eq!(game.status(), GameStatus::GameOver);
    assert_eq!(body_cells(&game), vec![(2, 1), (1, 1), (1, 2), (2, 2)]);
    assert_eq!(game.score(), 0);
}

#[test]
fn restart_from_game_over_resets_but_keeps_high_score() {
    let mut game = SnakeGame::with_state(
        GRID_WIDTH,
        GRID_HEIGHT,
        snake_of(&[
            (11, 10),
            (10, 10),
            (9, 10),
            (8, 10),
            (7, 10),
            (6, 10),
            (5, 10),
        ]),
        Direction::Right,
        Direction::Right,
        cell(3, 3),
        GameStatus::GameOver,
        3,
        9,
        11,
    )
    .expect("the description should be valid");
    game.handle_restart();
    assert_eq!(game.status(), GameStatus::Running);
    assert_eq!(game.score(), 0);
    assert_eq!(game.high_score(), 9);
    assert_eq!(body_cells(&game), vec![(12, 10), (11, 10), (10, 10), (9, 10)]);
    assert_eq!(game.direction, Direction::Right);
    let food = game.food_cell();
    assert!(0 <= food.x && food.x < 24 && 0 <= food.y && food.y < 20);
    assert!(!game.snake_cells().contains(&food));
}

#[test]
fn restart_from_ready_only_starts() {
    let mut game = SnakeGame::new_seeded(5);
    let before = (body_cells(&game), game.food_cell());
    game.handle_restart();
    assert_eq!(game.status(), GameStatus::Running);
    assert_eq!((body_cells(&game), game.food_cell()), before);
}

#[test]
fn pause_toggles_only_between_running_and_paused() {
    let mut game = SnakeGame::new_seeded(5);
    game.handle_toggle_pause();
    assert_eq!(game.status(), GameStatus::Ready);
    game.handle_restart();
    game.handle_toggle_pause();
    assert_eq!(game.status(), GameStatus::Paused);
    game.handle_toggle_pause();
    assert_eq!(game.status(), GameStatus::Running);
}

#[test]
fn tick_delay_follows_the_formula() {
    assert_eq!(delay_for_score(150, 70, 0), 150);
    assert_eq!(delay_for_score(150, 70, 3), 150);
    assert_eq!(delay_for_score(150, 70, 4), 146);
    assert_eq!(delay_for_score(150, 70, 40), 110);
    assert_eq!(delay_for_score(150, 70, 100), 70);
    assert_eq!(delay_for_score(150, 70, u32::MAX), 70);
}

#[test]
fn tick_delay_is_non_increasing_and_clamped() {
    let mut last = delay_for_score(150, 70, 0);
    for score in 1..200u32 {
        let delay = delay_for_score(150, 70, score);
        assert!(delay <= last);
        assert!(delay >= 70);
        last = delay;
    }
}

#[test]
fn new_game_tick_delay_is_the_base() {
    let game = SnakeGame::new_seeded(2);
    assert_eq!(game.tick_delay(), 150);
}

#[test]
fn status_text_labels() {
    let mut game = SnakeGame::new_seeded(2);
    assert_eq!(game.status_text(), ("Ready", 0x93c5fd));
    game.handle_restart();
    assert_eq!(game.status_text(), ("Running", 0x34d399));
    game.handle_toggle_pause();
    assert_eq!(game.status_text(), ("Paused", 0xfbbf24));
    let mut over = running_game(&[(23, 10), (22, 10), (21, 10), (20, 10)], (5, 5), 0, 0);
    over.tick();
    assert_eq!(over.status_text(), ("Game Over", 0xf87171));
}

#[test]
fn with_state_rejects_bad_descriptions() {
    let snake = snake_of(&[(11, 10), (10, 10), (9, 10), (8, 10)]);
    let ok = |w, h, s: VecDeque<Cell>, food, score| {
        SnakeGame::with_state(
            w,
            h,
            s,
            Direction::Right,
            Direction::Right,
            food,
            GameStatus::Running,
            score,
            0,
            1,
        )
    };
    assert!(ok(24, 20, snake.clone(), cell(5, 5), 0).is_some());
    // board too small for the starting snake
    assert!(ok(5, 20, snake.clone(), cell(1, 1), 0).is_none());
    // body length does not match the score
    assert!(ok(24, 20, snake.clone(), cell(5, 5), 1).is_none());
    // a body cell off the board
    assert!(ok(24, 20, snake_of(&[(24, 10), (23, 10), (22, 10), (21, 10)]), cell(5, 5), 0).is_none());
    // the body overlaps itself
    assert!(ok(
        24,
        20,
        snake_of(&[(11, 10), (11, 11), (11, 10), (11, 11), (11, 10)]),
        cell(5, 5),
        1
    )
    .is_none());
    // the body chain is broken
    assert!(ok(24, 20, snake_of(&[(11, 10), (10, 10), (8, 10), (7, 10)]), cell(5, 5), 0).is_none());
    // the food under the snake
    assert!(ok(24, 20, snake.clone(), cell(11, 10), 0).is_none());
    // the food off the board
    assert!(ok(24, 20, snake.clone(), cell(24, 0), 0).is_none());
}

#[test]
fn free_cells_lists_every_unoccupied_cell_in_order() {
    let body = snake_of(&[(0, 0)]);
    let free = free_cells(&body, 2, 2);
    let free: Vec<(i32, i32)> = free.iter().map(|c| (c.x, c.y)).collect();
    assert_eq!(free, vec![(0, 1), (1, 0), (1, 1)]);
}
