use vstd::prelude::*;

use std::collections::VecDeque;

use rand::rngs::StdRng;

use crate::board::adjacent;
use crate::board::in_bounds;
use crate::board::lemma_distinct_in_bounds_len;
use crate::cell::Cell;
use crate::direction::Direction;
use crate::rng::rng_below;
use crate::rng::rng_from_entropy;
use crate::rng::rng_from_seed;
use crate::status::GameStatus;

verus! {

/// Board width of the standard game, in cells.
pub const GRID_WIDTH: i32 = 24;

/// Board height of the standard game, in cells.
pub const GRID_HEIGHT: i32 = 20;

/// Tick delay at score zero, in milliseconds.
pub const BASE_TICK_MS: u64 = 150;

/// The floor below which the tick delay never drops, in milliseconds.
pub const MIN_TICK_MS: u64 = 70;

/// How many milliseconds the tick delay shrinks for every four points.
pub const SPEED_STEP_MS: u64 = 4;

/// The snake's body after one step in direction `d` without eating: a new
/// head in front of the old one, the tail cell dropped.
pub open spec fn move_step(body: Seq<Cell>, d: Direction) -> Seq<Cell> {
    seq![body[0].offset_spec(d)] + body.drop_last()
}

/// The snake's body after one step in direction `d` onto the food cell: a
/// new head in front of the old one, the tail kept.
pub open spec fn grow_step(body: Seq<Cell>, d: Direction) -> Seq<Cell> {
    seq![body[0].offset_spec(d)] + body
}

/// The canonical starting body: four cells in a horizontal line at the
/// middle of the board, head at the rightmost cell, facing right.
pub open spec fn initial_snake(w: int, h: int) -> Seq<Cell> {
    Seq::new(4, |i: int| Cell { x: (w / 2 - i) as i32, y: (h / 2) as i32 })
}

/// The scheduler's wait before the next tick, in milliseconds: the base
/// delay shortened by one step for every four points, floored at `min`.
pub open spec fn delay_spec(base: u64, min: u64, score: u32) -> int {
    let lowered = base - (score as int / 4) * SPEED_STEP_MS;
    if lowered >= min {
        lowered
    } else {
        min as int
    }
}

/// What a pause intent turns the status into: `Running` and `Paused` swap,
/// any other status stays.
pub open spec fn pause_toggled(s: GameStatus) -> GameStatus {
    match s {
        GameStatus::Running => GameStatus::Paused,
        GameStatus::Paused => GameStatus::Running,
        other => other,
    }
}

/// The scheduler's wait before the next tick for a given score, in
/// milliseconds.
pub fn delay_for_score(base: u64, min: u64, score: u32) -> (ms: u64)
    ensures
        ms as int == delay_spec(base, min, score),
{
    let quarter = score / 4;
    let speedup = (quarter as u64) * SPEED_STEP_MS;
    let lowered = if speedup >= base {
        0
    } else {
        base - speedup
    };
    if lowered >= min {
        lowered
    } else {
        min
    }
}

proof fn lemma_mul_le(a: int, b: int, c: int, d: int)
    by (nonlinear_arith)
    requires
        0 <= a <= c,
        0 <= b <= d,
    ensures
        a * b <= c * d,
{
}

/// Whether a board and snake description is one the engine can hold: board
/// big enough for the starting snake and countable in an `i32`, body length
/// matching the score, every body cell on the board, no overlaps, the body
/// an unbroken chain, and the food on the board but off the snake.
pub open spec fn state_ok(width: i32, height: i32, snake: Seq<Cell>, food: Cell, score: u32) -> bool {
    &&& 6 <= width
    &&& 1 <= height
    &&& width as int * height as int <= i32::MAX as int
    &&& snake.len() == score as int + 4
    &&& forall|i: int|
        0 <= i < snake.len() ==> in_bounds(#[trigger] snake[i], width as int, height as int)
    &&& snake.no_duplicates()
    &&& forall|i: int| 0 <= i < snake.len() - 1 ==> adjacent(#[trigger] snake[i], snake[i + 1])
    &&& in_bounds(food, width as int, height as int)
    &&& !snake.contains(food)
}

/// Whether every cell of `body` lies on a `width` by `height` board.
pub fn deque_in_bounds(body: &VecDeque<Cell>, width: i32, height: i32) -> (r: bool)
    ensures
        r == forall|i: int|
            0 <= i < body@.len() ==> in_bounds(#[trigger] body@[i], width as int, height as int),
{
    let mut i: usize = 0;
    while i < body.len()
        invariant
            0 <= i <= body@.len(),
            forall|j: int| 0 <= j < i ==> in_bounds(#[trigger] body@[j], width as int, height as int),
        decreases body@.len() - i,
    {
        let c = body[i];
        if !(0 <= c.x && c.x < width && 0 <= c.y && c.y < height) {
            return false;
        }
        i = i + 1;
    }
    true
}

/// Whether no two cells of `body` coincide.
pub fn deque_distinct(body: &VecDeque<Cell>) -> (r: bool)
    ensures
        r == body@.no_duplicates(),
{
    let mut i: usize = 0;
    while i < body.len()
        invariant
            0 <= i <= body@.len(),
            forall|a: int, b: int| 0 <= a < i && a < b < body@.len() ==> body@[a] != body@[b],
        decreases body@.len() - i,
    {
        let mut j: usize = i + 1;
        while j < body.len()
            invariant
                0 <= i < j <= body@.len(),
                forall|b: int| i < b < j ==> body@[i as int] != body@[b],
            decreases body@.len() - j,
        {
            if body[i] == body[j] {
                return false;
            }
            j = j + 1;
        }
        i = i + 1;
    }
    true
}

/// Whether consecutive cells of `body` are each one step apart.
pub fn deque_chain(body: &VecDeque<Cell>) -> (r: bool)
    ensures
        r == forall|i: int| 0 <= i < body@.len() - 1 ==> adjacent(#[trigger] body@[i], body@[i + 1]),
{
    if body.len() == 0 {
        return true;
    }
    let mut i: usize = 0;
    while i < body.len() - 1
        invariant
            body@.len() >= 1,
            0 <= i <= body@.len() - 1,
            forall|j: int| 0 <= j < i ==> adjacent(#[trigger] body@[j], body@[j + 1]),
        decreases body@.len() - i,
    {
        let a = body[i];
        let b = body[i + 1];
        let dx = a.x as i64 - b.x as i64;
        let dy = a.y as i64 - b.y as i64;
        let adx = if dx < 0 {
            -dx
        } else {
            dx
        };
        let ady = if dy < 0 {
            -dy
        } else {
            dy
        };
        if adx + ady != 1 {
            return false;
        }
        i = i + 1;
    }
    true
}

/// Whether `body` contains the cell `c`.
pub fn deque_contains(body: &VecDeque<Cell>, c: Cell) -> (r: bool)
    ensures
        r == body@.contains(c),
{
    let mut i: usize = 0;
    while i < body.len()
        invariant
            0 <= i <= body@.len(),
            forall|j: int| 0 <= j < i ==> body@[j] != c,
        decreases body@.len() - i,
    {
        if body[i] == c {
            assert(body@[i as int] == c);
            return true;
        }
        i = i + 1;
    }
    false
}

/// Every cell of a `width` by `height` board that `body` does not occupy,
/// in row-major order.
pub fn free_cells(body: &VecDeque<Cell>, width: i32, height: i32) -> (r: Vec<Cell>)
    requires
        0 < width,
        0 < height,
    ensures
        forall|i: int|
            0 <= i < r@.len() ==> in_bounds(#[trigger] r@[i], width as int, height as int)
                && !body@.contains(r@[i]),
        forall|c: Cell|
            in_bounds(c, width as int, height as int) && !body@.contains(c) ==> r@.contains(c),
        r@.len() <= width as int * height as int,
{
    let mut r: Vec<Cell> = Vec::new();
    let mut x: i32 = 0;
    while x < width
        invariant
            0 < width,
            0 < height,
            0 <= x <= width,
            forall|i: int|
                0 <= i < r@.len() ==> in_bounds(#[trigger] r@[i], width as int, height as int)
                    && !body@.contains(r@[i]),
            forall|c: Cell|
                in_bounds(c, width as int, height as int) && !body@.contains(c) && c.x < x
                    ==> r@.contains(c),
            r@.len() <= x as int * height as int,
        decreases width - x,
    {
        let mut y: i32 = 0;
        while y < height
            invariant
                0 < width,
                0 < height,
                0 <= x < width,
                0 <= y <= height,
                forall|i: int|
                    0 <= i < r@.len() ==> in_bounds(#[trigger] r@[i], width as int, height as int)
                        && !body@.contains(r@[i]),
                forall|c: Cell|
                    in_bounds(c, width as int, height as int) && !body@.contains(c) && (c.x < x
                        || (c.x == x && c.y < y)) ==> r@.contains(c),
                r@.len() <= x as int * height as int + y as int,
            decreases height - y,
        {
            let ghost pre = r@;
            let cell = Cell { x, y };
            if !deque_contains(body, cell) {
                r.push(cell);
                proof {
                    assert forall|c: Cell| pre.contains(c) implies r@.contains(c) by {
                        let j = choose|j: int| 0 <= j < pre.len() && pre[j] == c;
                        assert(r@[j] == c);
                    }
                    assert(r@[pre.len() as int] == cell);
                    assert(r@.contains(cell));
                }
            }
            y = y + 1;
        }
        assert(x as int * height as int + height as int == (x + 1) as int * height as int)
            by (nonlinear_arith);
        x = x + 1;
    }
    proof {
        assert(x as int * height as int == width as int * height as int);
    }
    r
}

/// A cell drawn uniformly at random among the cells of the board that
/// `body` leaves free, or `None` when `body` covers the whole board.
pub fn random_food(body: &VecDeque<Cell>, rng: &mut StdRng, width: i32, height: i32) -> (r: Option<
    Cell,
>)
    requires
        0 < width,
        0 < height,
        width as int * height as int <= i32::MAX as int,
    ensures
        match r {
            Some(c) => in_bounds(c, width as int, height as int) && !body@.contains(c),
            None => forall|c: Cell|
                in_bounds(c, width as int, height as int) ==> body@.contains(c),
        },
{
    let free = free_cells(body, width, height);
    if free.len() == 0 {
        assert forall|c: Cell| in_bounds(c, width as int, height as int) implies body@.contains(
            c,
        ) by {
            if !body@.contains(c) {
                assert(free@.contains(c));
            }
        }
        return None;
    }
    assert(free@.len() <= i32::MAX as int);
    let i = rng_below(rng, free.len() as i32);
    Some(free[i as usize])
}

/// The game engine: board, snake body (head first), movement intent, food,
/// score and status. All mutation goes through the intent handlers and
/// `tick`; the presentation layer only reads snapshots.
pub struct SnakeGame {
    pub board_width: i32,
    pub board_height: i32,
    pub snake: VecDeque<Cell>,
    pub direction: Direction,
    pub next_direction: Direction,
    pub food: Cell,
    pub rng: StdRng,
    pub state: GameStatus,
    pub score: u32,
    pub high_score: u32,
    pub base_tick_ms: u64,
    pub min_tick_ms: u64,
}

impl SnakeGame {
    /// The engine's invariant: the board is large enough for the starting
    /// snake and its cell count fits an `i32`; the body grows by one cell
    /// per point over its starting length of four; every body cell is on
    /// the board; the body never overlaps itself; consecutive body cells
    /// are one step apart; the food is on the board and, until the game is
    /// over, never under the snake.
    pub open spec fn wf(self) -> bool {
        &&& 6 <= self.board_width
        &&& 1 <= self.board_height
        &&& self.board_width as int * self.board_height as int <= i32::MAX as int
        &&& self.snake@.len() == self.score as int + 4
        &&& forall|i: int|
            0 <= i < self.snake@.len() ==> in_bounds(
                #[trigger] self.snake@[i],
                self.board_width as int,
                self.board_height as int,
            )
        &&& self.snake@.no_duplicates()
        &&& forall|i: int|
            0 <= i < self.snake@.len() - 1 ==> adjacent(
                #[trigger] self.snake@[i],
                self.snake@[i + 1],
            )
        &&& in_bounds(self.food, self.board_width as int, self.board_height as int)
        &&& (self.state != GameStatus::GameOver ==> !self.snake@.contains(self.food))
    }

    /// Whether `other` was built with the same board size and timing
    /// constants as `self`.
    pub open spec fn same_config(self, other: SnakeGame) -> bool {
        &&& self.board_width == other.board_width
        &&& self.board_height == other.board_height
        &&& self.base_tick_ms == other.base_tick_ms
        &&& self.min_tick_ms == other.min_tick_ms
    }

    /// A fresh engine: standard board, canonical snake facing right, random
    /// food, score zero, in the `Ready` state.
    pub fn new() -> (g: SnakeGame)
        ensures
            g.wf(),
            g.board_width == GRID_WIDTH,
            g.board_height == GRID_HEIGHT,
            g.base_tick_ms == BASE_TICK_MS,
            g.min_tick_ms == MIN_TICK_MS,
            g.snake@ == initial_snake(GRID_WIDTH as int, GRID_HEIGHT as int),
            g.direction == Direction::Right,
            g.next_direction == Direction::Right,
            g.state == GameStatus::Ready,
            g.score == 0,
            g.high_score == 0,
    {
        Self::from_rng(rng_from_entropy())
    }

    /// A fresh engine whose random source is derived from `seed`, for
    /// reproducible runs.
    pub fn new_seeded(seed: u64) -> (g: SnakeGame)
        ensures
            g.wf(),
            g.board_width == GRID_WIDTH,
            g.board_height == GRID_HEIGHT,
            g.base_tick_ms == BASE_TICK_MS,
            g.min_tick_ms == MIN_TICK_MS,
            g.snake@ == initial_snake(GRID_WIDTH as int, GRID_HEIGHT as int),
            g.direction == Direction::Right,
            g.next_direction == Direction::Right,
            g.state == GameStatus::Ready,
            g.score == 0,
            g.high_score == 0,
    {
        Self::from_rng(rng_from_seed(seed))
    }

    fn from_rng(rng: StdRng) -> (g: SnakeGame)
        ensures
            g.wf(),
            g.board_width == GRID_WIDTH,
            g.board_height == GRID_HEIGHT,
            g.base_tick_ms == BASE_TICK_MS,
            g.min_tick_ms == MIN_TICK_MS,
            g.snake@ == initial_snake(GRID_WIDTH as int, GRID_HEIGHT as int),
            g.direction == Direction::Right,
            g.next_direction == Direction::Right,
            g.state == GameStatus::Ready,
            g.score == 0,
            g.high_score == 0,
    {
        let mut rng = rng;
        let snake = Self::build_initial_snake(GRID_WIDTH, GRID_HEIGHT);
        proof {
            lemma_initial_snake_wf(GRID_WIDTH as int, GRID_HEIGHT as int);
        }
        let food = match random_food(&snake, &mut rng, GRID_WIDTH, GRID_HEIGHT) {
            Some(c) => c,
            None => {
                proof {
                    let c = choose|c: Cell|
                        in_bounds(c, GRID_WIDTH as int, GRID_HEIGHT as int) && !initial_snake(
                            GRID_WIDTH as int,
                            GRID_HEIGHT as int,
                        ).contains(c);
                    assert(snake@.contains(c));
                }
                vstd::pervasive::unreached()
            },
        };
        SnakeGame {
            board_width: GRID_WIDTH,
            board_height: GRID_HEIGHT,
            snake,
            direction: Direction::Right,
            next_direction: Direction::Right,
            food,
            rng,
            state: GameStatus::Ready,
            score: 0,
            high_score: 0,
            base_tick_ms: BASE_TICK_MS,
            min_tick_ms: MIN_TICK_MS,
        }
    }

    /// Whether a turn intent towards `d` is honoured: only while the game
    /// is running or paused, and never a reversal of the current movement
    /// while the snake is longer than one cell.
    pub open spec fn turn_accepted(self, d: Direction) -> bool {
        &&& self.state == GameStatus::Running || self.state == GameStatus::Paused
        &&& !(d.opposite(self.direction) && self.snake@.len() > 1)
    }

    /// Records `direction` as the intent for the next tick when the guard
    /// admits it; drops it otherwise. Nothing else changes.
    pub fn queue_direction(&mut self, direction: Direction)
        ensures
            final(self).next_direction == if old(self).turn_accepted(direction) {
                direction
            } else {
                old(self).next_direction
            },
            *final(self) == (SnakeGame { next_direction: final(self).next_direction, ..*old(self) }),
    {
        if matches!(self.state, GameStatus::GameOver | GameStatus::Ready) {
            return;
        }
        if direction.is_opposite(self.direction) && self.snake.len() > 1 {
            return;
        }
        self.next_direction = direction;
    }

    /// A turn intent from the presentation layer; same effect as
    /// `queue_direction`.
    pub fn handle_turn(&mut self, direction: Direction)
        ensures
            final(self).next_direction == if old(self).turn_accepted(direction) {
                direction
            } else {
                old(self).next_direction
            },
            *final(self) == (SnakeGame { next_direction: final(self).next_direction, ..*old(self) }),
    {
        self.queue_direction(direction);
    }

    /// Swaps `Running` and `Paused`; any other state stays as it is.
    pub fn toggle_pause(&mut self)
        ensures
            *final(self) == (SnakeGame { state: pause_toggled(old(self).state), ..*old(self) }),
    {
        self.state = match self.state {
            GameStatus::Running => GameStatus::Paused,
            GameStatus::Paused => GameStatus::Running,
            other => other,
        };
    }

    /// A pause intent from the presentation layer; same effect as
    /// `toggle_pause`.
    pub fn handle_toggle_pause(&mut self)
        ensures
            *final(self) == (SnakeGame { state: pause_toggled(old(self).state), ..*old(self) }),
    {
        if matches!(self.state, GameStatus::Running | GameStatus::Paused) {
            self.toggle_pause();
        }
    }

    /// Whether `cell` lies on this engine's board.
    pub fn board_contains(&self, cell: &Cell) -> (r: bool)
        ensures
            r == in_bounds(*cell, self.board_width as int, self.board_height as int),
    {
        0 <= cell.x && cell.x < self.board_width && 0 <= cell.y && cell.y < self.board_height
    }

    /// The scheduler's wait before the next tick, in milliseconds.
    pub fn tick_delay(&self) -> (ms: u64)
        ensures
            ms as int == delay_spec(self.base_tick_ms, self.min_tick_ms, self.score),
    {
        delay_for_score(self.base_tick_ms, self.min_tick_ms, self.score)
    }

    /// A fresh food cell for the current body, or `None` when the snake
    /// covers the whole board. Only the random source changes.
    pub fn random_empty_cell(&mut self) -> (r: Option<Cell>)
        requires
            0 < old(self).board_width,
            0 < old(self).board_height,
            old(self).board_width as int * old(self).board_height as int <= i32::MAX as int,
        ensures
            *final(self) == (SnakeGame { rng: final(self).rng, ..*old(self) }),
            match r {
                Some(c) => in_bounds(c, old(self).board_width as int, old(self).board_height as int)
                    && !old(self).snake@.contains(c),
                None => forall|c: Cell|
                    in_bounds(c, old(self).board_width as int, old(self).board_height as int)
                        ==> old(self).snake@.contains(c),
            },
    {
        random_food(&self.snake, &mut self.rng, self.board_width, self.board_height)
    }

    /// Rebuilds the board for a new game: canonical snake facing right,
    /// score zero, fresh food, status `Ready`. The high score and the
    /// configuration are kept.
    pub fn reset(&mut self)
        requires
            old(self).wf(),
        ensures
            final(self).wf(),
            old(self).same_config(*final(self)),
            final(self).snake@ == initial_snake(
                old(self).board_width as int,
                old(self).board_height as int,
            ),
            final(self).direction == Direction::Right,
            final(self).next_direction == Direction::Right,
            final(self).state == GameStatus::Ready,
            final(self).score == 0,
            final(self).high_score == old(self).high_score,
            in_bounds(final(self).food, old(self).board_width as int, old(self).board_height as int),
            !final(self).snake@.contains(final(self).food),
    {
        self.snake = Self::build_initial_snake(self.board_width, self.board_height);
        self.direction = Direction::Right;
        self.next_direction = Direction::Right;
        self.state = GameStatus::Ready;
        self.score = 0;
        proof {
            lemma_initial_snake_wf(self.board_width as int, self.board_height as int);
        }
        self.food = match self.random_empty_cell() {
            Some(c) => c,
            None => {
                proof {
                    let c = choose|c: Cell|
                        in_bounds(c, self.board_width as int, self.board_height as int)
                            && !initial_snake(
                            self.board_width as int,
                            self.board_height as int,
                        ).contains(c);
                    assert(self.snake@.contains(c));
                }
                vstd::pervasive::unreached()
            },
        };
    }

    /// A restart intent: from `Ready` the game simply starts; from any
    /// other state the board is rebuilt as by `reset` and the game starts
    /// at once. The high score survives.
    pub fn handle_restart(&mut self)
        requires
            old(self).wf(),
        ensures
            final(self).wf(),
            old(self).same_config(*final(self)),
            final(self).state == GameStatus::Running,
            final(self).high_score == old(self).high_score,
            old(self).state == GameStatus::Ready ==> *final(self) == (SnakeGame {
                state: GameStatus::Running,
                ..*old(self)
            }),
            old(self).state != GameStatus::Ready ==> {
                &&& final(self).snake@ == initial_snake(
                    old(self).board_width as int,
                    old(self).board_height as int,
                )
                &&& final(self).direction == Direction::Right
                &&& final(self).next_direction == Direction::Right
                &&& final(self).score == 0
                &&& in_bounds(
                    final(self).food,
                    old(self).board_width as int,
                    old(self).board_height as int,
                )
                &&& !final(self).snake@.contains(final(self).food)
            },
    {
        if matches!(self.state, GameStatus::Ready) {
            self.state = GameStatus::Running;
        } else {
            self.reset();
            self.state = GameStatus::Running;
        }
    }

    /// One simulation step. Outside `Running` it does nothing. Otherwise
    /// the pending direction is committed, the head advances one cell, and
    /// the game either ends (wall or body hit, judged against the pre-tick
    /// body, tail included), grows (the head reached the food: score and
    /// high score rise, the food is relocated to a free cell), or simply
    /// moves (new head, tail dropped). Should growing ever leave no free
    /// cell, the board is complete and the game ends with the food left in
    /// place.
    #[verifier::spinoff_prover]
    #[verifier::rlimit(100)]
    pub fn tick(&mut self)
        requires
            old(self).wf(),
        ensures
            final(self).wf(),
            old(self).same_config(*final(self)),
            old(self).state != GameStatus::Running ==> *final(self) == *old(self),
            old(self).state == GameStatus::Running ==> {
                let d = old(self).next_direction;
                let next = old(self).snake@[0].offset_spec(d);
                let w = old(self).board_width as int;
                let h = old(self).board_height as int;
                if !in_bounds(next, w, h) || old(self).snake@.contains(next) {
                    *final(self) == (SnakeGame {
                        direction: d,
                        state: GameStatus::GameOver,
                        ..*old(self)
                    })
                } else if next == old(self).food {
                    &&& final(self).snake@ == grow_step(old(self).snake@, d)
                    &&& final(self).direction == d
                    &&& final(self).next_direction == d
                    &&& final(self).score == old(self).score + 1
                    &&& final(self).high_score as int == vstd::math::max(
                        old(self).high_score as int,
                        old(self).score as int + 1,
                    )
                    &&& if forall|c: Cell|
                        in_bounds(c, w, h) ==> grow_step(old(self).snake@, d).contains(c) {
                        final(self).state == GameStatus::GameOver && final(self).food == old(
                            self,
                        ).food
                    } else {
                        &&& final(self).state == GameStatus::Running
                        &&& in_bounds(final(self).food, w, h)
                        &&& !final(self).snake@.contains(final(self).food)
                    }
                } else {
                    &&& *final(self) == (SnakeGame {
                        direction: d,
                        snake: final(self).snake,
                        ..*old(self)
                    })
                    &&& final(self).snake@ == move_step(old(self).snake@, d)
                }
            },
    {
        if self.state != GameStatus::Running {
            return;
        }
        let ghost pre = *self;
        let head = self.snake[0];
        self.direction = self.next_direction;
        let next = head.offset(self.direction);
        if !self.board_contains(&next) || deque_contains(&self.snake, next) {
            self.state = GameStatus::GameOver;
            return;
        }
        let ghost w = pre.board_width as int;
        let ghost h = pre.board_height as int;
        self.snake.push_front(next);
        proof {
            assert(self.snake@ == grow_step(pre.snake@, pre.next_direction));
            assert forall|i: int, j: int|
                0 <= i < self.snake@.len() && 0 <= j < self.snake@.len() && i != j
                    implies self.snake@[i] != self.snake@[j] by {
                if self.snake@[i] == self.snake@[j] {
                    if i == 0 {
                        assert(pre.snake@[j - 1] == next);
                        assert(pre.snake@.contains(next));
                    } else if j == 0 {
                        assert(pre.snake@[i - 1] == next);
                        assert(pre.snake@.contains(next));
                    }
                }
            }
            assert forall|i: int|
                0 <= i < self.snake@.len() implies in_bounds(#[trigger] self.snake@[i], w, h) by {
                if i > 0 {
                    assert(in_bounds(pre.snake@[i - 1], w, h));
                }
            }
            assert forall|i: int|
                0 <= i < self.snake@.len() - 1 implies adjacent(
                #[trigger] self.snake@[i],
                self.snake@[i + 1],
            ) by {
                if i > 0 {
                    assert(adjacent(pre.snake@[i - 1], pre.snake@[i]));
                }
            }
        }
        if next == self.food {
            proof {
                lemma_distinct_in_bounds_len(self.snake@, w, h);
            }
            self.score = self.score + 1;
            if self.score > self.high_score {
                self.high_score = self.score;
            }
            match self.random_empty_cell() {
                Some(c) => {
                    self.food = c;
                },
                None => {
                    self.state = GameStatus::GameOver;
                },
            }
        } else {
            let _ = self.snake.pop_back();
            proof {
                assert(self.snake@ =~= move_step(pre.snake@, pre.next_direction));
                assert forall|i: int|
                    0 <= i < self.snake@.len() implies self.snake@[i] != pre.food by {
                    if i > 0 {
                        if self.snake@[i] == pre.food {
                            assert(pre.snake@[i - 1] == pre.food);
                            assert(pre.snake@.contains(pre.food));
                        }
                    }
                }
            }
        }
    }

    /// Builds an engine holding exactly the given position, for driving
    /// the simulation from a chosen situation. Returns `None`, and nothing
    /// else, when the description breaks the engine's invariant.
    pub fn with_state(
        width: i32,
        height: i32,
        snake: VecDeque<Cell>,
        direction: Direction,
        next_direction: Direction,
        food: Cell,
        state: GameStatus,
        score: u32,
        high_score: u32,
        seed: u64,
    ) -> (r: Option<SnakeGame>)
        ensures
            match r {
                Some(g) => {
                    &&& state_ok(width, height, snake@, food, score)
                    &&& g.wf()
                    &&& g.board_width == width
                    &&& g.board_height == height
                    &&& g.snake@ == snake@
                    &&& g.direction == direction
                    &&& g.next_direction == next_direction
                    &&& g.food == food
                    &&& g.state == state
                    &&& g.score == score
                    &&& g.high_score == high_score
                    &&& g.base_tick_ms == BASE_TICK_MS
                    &&& g.min_tick_ms == MIN_TICK_MS
                },
                None => !state_ok(width, height, snake@, food, score),
            },
    {
        if width < 6 || height < 1 {
            return None;
        }
        proof {
            lemma_mul_le(width as int, height as int, i32::MAX as int, i32::MAX as int);
        }
        if width as i64 * height as i64 > i32::MAX as i64 {
            return None;
        }
        if snake.len() < 4 || snake.len() - 4 != score as usize {
            return None;
        }
        if !deque_in_bounds(&snake, width, height) {
            return None;
        }
        if !deque_distinct(&snake) {
            return None;
        }
        if !deque_chain(&snake) {
            return None;
        }
        if !(0 <= food.x && food.x < width && 0 <= food.y && food.y < height) {
            return None;
        }
        if deque_contains(&snake, food) {
            return None;
        }
        Some(
            SnakeGame {
                board_width: width,
                board_height: height,
                snake,
                direction,
                next_direction,
                food,
                rng: rng_from_seed(seed),
                state,
                score,
                high_score,
                base_tick_ms: BASE_TICK_MS,
                min_tick_ms: MIN_TICK_MS,
            },
        )
    }

    /// The current status.
    pub fn status(&self) -> (r: GameStatus)
        ensures
            r == self.state,
    {
        self.state
    }

    /// The current score.
    pub fn score(&self) -> (r: u32)
        ensures
            r == self.score,
    {
        self.score
    }

    /// The best score reached since the engine was built.
    pub fn high_score(&self) -> (r: u32)
        ensures
            r == self.high_score,
    {
        self.high_score
    }

    /// The current food cell.
    pub fn food_cell(&self) -> (r: Cell)
        ensures
            r == self.food,
    {
        self.food
    }

    /// The board size as `(width, height)`.
    pub fn board_dimensions(&self) -> (r: (i32, i32))
        ensures
            r.0 == self.board_width,
            r.1 == self.board_height,
    {
        (self.board_width, self.board_height)
    }

    /// A copy of the snake's body, head first.
    pub fn snake_cells(&self) -> (r: Vec<Cell>)
        ensures
            r@ == self.snake@,
    {
        let mut r: Vec<Cell> = Vec::new();
        let mut i: usize = 0;
        while i < self.snake.len()
            invariant
                0 <= i <= self.snake@.len(),
                r@.len() == i,
                forall|j: int| 0 <= j < i ==> r@[j] == self.snake@[j],
            decreases self.snake@.len() - i,
        {
            r.push(self.snake[i]);
            i = i + 1;
        }
        proof {
            assert(r@ =~= self.snake@);
        }
        r
    }

    /// A label and a colour for the current status, for display.
    pub fn status_text(&self) -> (r: (&'static str, u32))
        ensures
            self.state == GameStatus::Ready ==> r.0@ == "Ready"@ && r.1 == 0x93c5fdu32,
            self.state == GameStatus::Running ==> r.0@ == "Running"@ && r.1 == 0x34d399u32,
            self.state == GameStatus::Paused ==> r.0@ == "Paused"@ && r.1 == 0xfbbf24u32,
            self.state == GameStatus::GameOver ==> r.0@ == "Game Over"@ && r.1 == 0xf87171u32,
    {
        match self.state {
            GameStatus::Ready => ("Ready", 0x93c5fd),
            GameStatus::Running => ("Running", 0x34d399),
            GameStatus::Paused => ("Paused", 0xfbbf24),
            GameStatus::GameOver => ("Game Over", 0xf87171),
        }
    }

    /// The canonical starting body for a `width` by `height` board.
    pub fn build_initial_snake(width: i32, height: i32) -> (r: VecDeque<Cell>)
        requires
            6 <= width,
            1 <= height,
        ensures
            r@ == initial_snake(width as int, height as int),
    {
        let mut body: VecDeque<Cell> = VecDeque::new();
        let start_x = width / 2;
        let start_y = height / 2;
        let mut offset: i32 = 0;
        while offset < 4
            invariant
                6 <= width,
                1 <= height,
                start_x as int == width as int / 2,
                start_y as int == height as int / 2,
                0 <= offset <= 4,
                body@.len() == offset as int,
                forall|i: int|
                    0 <= i < offset as int ==> body@[i] == (Cell {
                        x: (width as int / 2 - i) as i32,
                        y: (height as int / 2) as i32,
                    }),
            decreases 4 - offset,
        {
            body.push_back(Cell { x: start_x - offset, y: start_y });
            offset = offset + 1;
        }
        proof {
            assert(body@ =~= initial_snake(width as int, height as int));
        }
        body
    }
}

/// The canonical starting body lies on the board, has four distinct cells
/// in a horizontal chain, and leaves at least one board cell free.
pub proof fn lemma_initial_snake_wf(w: int, h: int)
    requires
        6 <= w <= i32::MAX as int,
        1 <= h <= i32::MAX as int,
    ensures
        initial_snake(w, h).len() == 4,
        forall|i: int| 0 <= i < 4 ==> in_bounds(#[trigger] initial_snake(w, h)[i], w, h),
        initial_snake(w, h).no_duplicates(),
        forall|i: int|
            0 <= i < 3 ==> adjacent(#[trigger] initial_snake(w, h)[i], initial_snake(w, h)[i + 1]),
        exists|c: Cell| in_bounds(c, w, h) && !initial_snake(w, h).contains(c),
{
    let s = initial_snake(w, h);
    assert(forall|i: int| 0 <= i < 4 ==> (#[trigger] s[i]).x == w / 2 - i && s[i].y == h / 2);
    if h >= 2 {
        let c = Cell { x: 0, y: 0 };
        assert(!s.contains(c)) by {
            if s.contains(c) {
                let i = choose|i: int| 0 <= i < s.len() && s[i] == c;
                assert(s[i].y == h / 2);
            }
        }
        assert(in_bounds(c, w, h) && !s.contains(c));
    } else {
        let c = Cell { x: (w - 1) as i32, y: 0 };
        assert(!s.contains(c)) by {
            if s.contains(c) {
                let i = choose|i: int| 0 <= i < s.len() && s[i] == c;
                assert(s[i].x == w / 2 - i);
            }
        }
        assert(in_bounds(c, w, h) && !s.contains(c));
    }
}

} // verus!
