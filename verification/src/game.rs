//! The game as it runs: the state in memory and the operations on it,
//! each held to what the model says.

use crate::board::{count_free, lemma_free_cells_exact, nth_free, occupies, valid_sides};
use crate::geometry::{in_grid, Direction, Position};
use crate::model::{
    initial_snake, lemma_crashed_wf, lemma_crept_wf, lemma_grown_wf, lemma_initial_shape,
    tick_millis_for, GameModel, GameState, BASE_TICK_MS, INITIAL_SNAKE_LENGTH, MIN_TICK_MS,
    SPEED_INCREASE_PER_FOOD,
};
use crate::random::random_in;
use std::collections::VecDeque;
use std::time::Duration;
use vstd::prelude::*;

verus! {

/// The `Duration` that `Duration::from_millis` makes of `millis`.
pub uninterp spec fn duration_of_millis(millis: u64) -> Duration;

/// Calls `Duration::from_millis`.
///
/// Trusted, not proved: the result is the one value that std makes of
/// `millis`. What that value holds is left to std.
#[verifier::external_body]
fn duration_from_millis(millis: u64) -> (duration: Duration)
    ensures
        duration == duration_of_millis(millis),
{
    Duration::from_millis(millis)
}

/// A game of Snake.
pub struct Game {
    snake: VecDeque<Position>,
    direction: Direction,
    next_direction: Direction,
    food: Position,
    score: u32,
    state: GameState,
    grid_width: u16,
    grid_height: u16,
}

impl View for Game {
    type V = GameModel;

    closed spec fn view(&self) -> GameModel {
        GameModel {
            snake: self.snake@,
            direction: self.direction,
            next_direction: self.next_direction,
            food: self.food,
            score: self.score as nat,
            state: self.state,
            width: self.grid_width as int,
            height: self.grid_height as int,
        }
    }
}

impl Game {
    /// Starts a game on a board `grid_width` cells wide and `grid_height`
    /// high: the snake in the center, heading right, and food on a free
    /// cell picked at random. On a board so small that the snake leaves no
    /// cell free the game is over from the start.
    pub fn new(grid_width: u16, grid_height: u16) -> (game: Game)
        requires
            valid_sides(grid_width as int, grid_height as int),
        ensures
            game@.wf(),
            game@ == GameModel::initial(grid_width as int, grid_height as int).respawned(
                game@.food,
            ),
            game@.state == GameState::Playing ==> game@.free().contains(game@.food),
    {
        let center_x = grid_width as i16 / 2;
        let center_y = grid_height as i16 / 2;

        let mut snake: VecDeque<Position> = VecDeque::new();
        let mut i: usize = 0;
        while i < INITIAL_SNAKE_LENGTH
            invariant
                i <= INITIAL_SNAKE_LENGTH,
                0 <= center_x == grid_width / 2,
                0 <= center_y == grid_height / 2,
                snake@ == Seq::new(
                    i as nat,
                    |j: int| Position { x: (center_x - j) as i16, y: center_y },
                ),
            decreases INITIAL_SNAKE_LENGTH - i,
        {
            snake.push_back(Position { x: center_x - i as i16, y: center_y });
            i += 1;
        }

        let mut game = Game {
            snake,
            direction: Direction::Right,
            next_direction: Direction::Right,
            food: Position { x: 0, y: 0 },
            score: 0,
            state: GameState::Playing,
            grid_width,
            grid_height,
        };
        proof {
            assert(game@.snake =~= initial_snake(grid_width as int, grid_height as int));
            lemma_initial_shape(grid_width as int, grid_height as int);
        }
        game.spawn_food();
        game
    }

    /// Puts the food on the `k`-th free cell in row-major order, counting
    /// from zero. With fewer free cells than that nothing changes.
    pub fn place_food(&mut self, k: u32) -> (placed: bool)
        requires
            old(self)@.wf_snake(),
        ensures
            placed == (k < old(self)@.free().len()),
            placed ==> final(self)@ == old(self)@.with_food(old(self)@.free()[k as int]),
            !placed ==> final(self)@ == old(self)@,
            final(self)@.wf_snake(),
            placed || old(self)@.wf() ==> final(self)@.wf(),
    {
        proof {
            lemma_free_cells_exact(self@.snake, self@.width, self@.height);
        }
        match nth_free(&self.snake, self.grid_width, self.grid_height, k) {
            Some(cell) => {
                assert(self@.free().contains(cell));
                self.food = cell;
                true
            },
            None => false,
        }
    }

    /// Puts the food on a free cell: the one whose place among the free
    /// cells a random draw names. With no free cell left the game is over.
    fn spawn_food(&mut self)
        requires
            old(self)@.wf_snake(),
        ensures
            final(self)@ == old(self)@.respawned(final(self)@.food),
            old(self)@.free().len() > 0 ==> old(self)@.free().contains(final(self)@.food),
            final(self)@.wf(),
    {
        let free = count_free(&self.snake, self.grid_width, self.grid_height);
        if free == 0 {
            self.state = GameState::GameOver;
        } else {
            let k = random_in(0, free);
            self.place_food(k);
        }
    }

    /// Advances the game by one tick. A game that is over stays as it is.
    /// Otherwise the snake takes up the queued direction and its head moves
    /// one cell: into a wall or into the snake, and the game is over; onto
    /// the food, and the snake grows by that cell, the score rises by one
    /// and new food is placed on a free cell, or the game is over if none
    /// is left; onto any other cell, and the tail follows.
    pub fn tick(&mut self)
        requires
            old(self)@.wf(),
        ensures
            final(self)@.wf(),
            final(self)@ == old(self)@.ticked(final(self)@.food),
            old(self)@.state == GameState::Playing && old(self)@.eats() && final(self)@.state
                == GameState::Playing ==> old(self)@.grown().free().contains(final(self)@.food),
    {
        match self.state {
            GameState::Playing => {},
            GameState::GameOver => {
                return ;
            },
        }

        // Apply the queued direction change
        self.direction = self.next_direction;

        // Calculate new head position
        let head = self.snake[0];
        assert(in_grid(head, self@.width, self@.height));
        let new_head = match self.direction {
            Direction::Up => Position { x: head.x, y: head.y - 1 },
            Direction::Down => Position { x: head.x, y: head.y + 1 },
            Direction::Left => Position { x: head.x - 1, y: head.y },
            Direction::Right => Position { x: head.x + 1, y: head.y },
        };
        assert(new_head == old(self)@.target());

        // Check wall collision
        if new_head.x < 0 || new_head.x >= self.grid_width as i16 || new_head.y < 0 || new_head.y
            >= self.grid_height as i16 {
            self.state = GameState::GameOver;
            proof {
                lemma_crashed_wf(old(self)@);
            }
            return ;
        }

        // Check self collision
        if occupies(&self.snake, new_head) {
            self.state = GameState::GameOver;
            proof {
                lemma_crashed_wf(old(self)@);
            }
            return ;
        }

        // Move snake
        self.snake.push_front(new_head);

        // Check food collision
        if new_head == self.food {
            proof {
                lemma_grown_wf(old(self)@);
            }
            // The snake grows: the tail stays
            self.score += 1;
            assert(self@ == old(self)@.grown());
            self.spawn_food();
        } else {
            self.snake.pop_back();
            proof {
                lemma_crept_wf(old(self)@);
                assert(self@.snake =~= old(self)@.crept().snake);
            }
        }
    }

    /// Asks the snake to turn towards `new_direction` at the next tick. A
    /// request to reverse the direction of travel is ignored.
    pub fn change_direction(&mut self, new_direction: Direction)
        ensures
            final(self)@ == old(self)@.turned(new_direction),
            old(self)@.wf() ==> final(self)@.wf(),
    {
        if new_direction != self.direction.opposite() {
            self.next_direction = new_direction;
        }
    }

    /// The time between two ticks, in milliseconds: it starts at
    /// `BASE_TICK_MS`, shrinks by `SPEED_INCREASE_PER_FOOD` with each point
    /// scored, and stops shrinking at `MIN_TICK_MS`.
    pub fn tick_millis(&self) -> (millis: u64)
        ensures
            millis == tick_millis_for(self@.score),
            MIN_TICK_MS <= millis <= BASE_TICK_MS,
    {
        let speed_reduction = self.score as u64 * SPEED_INCREASE_PER_FOOD;
        let tick_ms = BASE_TICK_MS.saturating_sub(speed_reduction);
        if tick_ms > MIN_TICK_MS {
            tick_ms
        } else {
            MIN_TICK_MS
        }
    }

    /// The time between two ticks: `tick_millis` as a `Duration`.
    pub fn tick_duration(&self) -> (duration: Duration)
        ensures
            duration == duration_of_millis(tick_millis_for(self@.score) as u64),
    {
        duration_from_millis(self.tick_millis())
    }

    /// The number of pieces of food eaten.
    pub fn score(&self) -> (score: u32)
        ensures
            score == self@.score,
    {
        self.score
    }

    /// Whether the game still runs.
    pub fn state(&self) -> (state: GameState)
        ensures
            state == self@.state,
    {
        self.state
    }

    /// The cell the food lies on.
    pub fn food(&self) -> (food: Position)
        ensures
            food == self@.food,
    {
        self.food
    }

    /// The direction the snake last moved in.
    pub fn direction(&self) -> (direction: Direction)
        ensures
            direction == self@.direction,
    {
        self.direction
    }

    /// The direction the snake takes up at the next tick.
    pub fn next_direction(&self) -> (direction: Direction)
        ensures
            direction == self@.next_direction,
    {
        self.next_direction
    }

    /// The board's width in cells.
    pub fn grid_width(&self) -> (width: u16)
        ensures
            width == self@.width,
    {
        self.grid_width
    }

    /// The board's height in cells.
    pub fn grid_height(&self) -> (height: u16)
        ensures
            height == self@.height,
    {
        self.grid_height
    }

    /// The cell the snake's head lies on.
    pub fn head(&self) -> (head: Position)
        requires
            self@.wf(),
        ensures
            head == self@.head(),
    {
        self.snake[0]
    }

    /// The snake's segments from head to tail.
    pub fn snake(&self) -> (segments: Vec<Position>)
        ensures
            segments@ == self@.snake,
    {
        let mut segments: Vec<Position> = Vec::new();
        let mut i: usize = 0;
        while i < self.snake.len()
            invariant
                i <= self.snake@.len(),
                segments@ == self.snake@.subrange(0, i as int),
            decreases self.snake@.len() - i,
        {
            segments.push(self.snake[i]);
            proof {
                assert(segments@ =~= self.snake@.subrange(0, i + 1));
            }
            i += 1;
        }
        proof {
            assert(segments@ =~= self.snake@);
        }
        segments
    }

    /// Whether a segment of the snake lies on `cell`.
    pub fn covers(&self, cell: Position) -> (covered: bool)
        ensures
            covered == self@.snake.contains(cell),
    {
        occupies(&self.snake, cell)
    }
}

} // verus!
