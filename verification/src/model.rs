//! What a game is and how it moves on, as mathematics: the state, the
//! step from one tick to the next, and what holds of every game.

use crate::board::{
    free_cells, lemma_distinct_cells_bounded, lemma_free_cells_exact, valid_sides, MAX_SIDE,
};
use crate::geometry::{adjacent, in_grid, moved, Direction, Position};
use vstd::prelude::*;

verus! {

/// The number of segments a new snake has.
pub const INITIAL_SNAKE_LENGTH: usize = 3;

/// The time between two ticks before anything was eaten, in milliseconds.
pub const BASE_TICK_MS: u64 = 200;

/// The shortest time between two ticks, in milliseconds.
pub const MIN_TICK_MS: u64 = 50;

/// By how many milliseconds each piece of food shortens the tick.
pub const SPEED_INCREASE_PER_FOOD: u64 = 5;

/// Whether the game still runs.
#[derive(Clone, Copy, Debug, PartialEq, Eq, Structural)]
pub enum GameState {
    Playing,
    GameOver,
}

/// The shape every snake has: no two segments share a cell, each touches
/// the next, and all but the last two lie on the board. (On a board under
/// four cells wide the snake starts with its tail hanging over the left
/// edge.)
#[verifier::opaque]
pub open spec fn snake_shape(snake: Seq<Position>, width: int, height: int) -> bool {
    &&& snake.no_duplicates()
    &&& forall|i: int| 0 <= i < snake.len() - 2 ==> in_grid(#[trigger] snake[i], width, height)
    &&& forall|i: int| 0 <= i < snake.len() - 1 ==> adjacent(#[trigger] snake[i], snake[i + 1])
}

/// The snake a game on a board of the given sides starts with: its head
/// on the center cell, the rest of it stretched out to the left.
pub open spec fn initial_snake(width: int, height: int) -> Seq<Position> {
    Seq::new(
        INITIAL_SNAKE_LENGTH as nat,
        |i: int| Position { x: (width / 2 - i) as i16, y: (height / 2) as i16 },
    )
}

/// The tick length, in milliseconds, once `score` pieces of food were eaten.
pub open spec fn tick_millis_for(score: nat) -> nat {
    if BASE_TICK_MS - SPEED_INCREASE_PER_FOOD * score > MIN_TICK_MS {
        (BASE_TICK_MS - SPEED_INCREASE_PER_FOOD * score) as nat
    } else {
        MIN_TICK_MS as nat
    }
}

/// What a game is, mathematically. `snake[0]` is the head.
pub struct GameModel {
    pub snake: Seq<Position>,
    pub direction: Direction,
    pub next_direction: Direction,
    pub food: Position,
    pub score: nat,
    pub state: GameState,
    pub width: int,
    pub height: int,
}

impl GameModel {
    /// The state a game on a board of the given sides has before its first
    /// food is placed.
    pub open spec fn initial(width: int, height: int) -> GameModel {
        GameModel {
            snake: initial_snake(width, height),
            direction: Direction::Right,
            next_direction: Direction::Right,
            food: Position { x: 0, y: 0 },
            score: 0,
            state: GameState::Playing,
            width,
            height,
        }
    }

    /// What holds of the snake and the board in every game, wherever on
    /// the board the food lies.
    ///
    /// The snake has as many segments as it started with and ate since,
    /// in the shape that `snake_shape` describes, its head on the board.
    /// While the game runs, the segment behind the head lies against the
    /// direction of travel. The queued direction never reverses the
    /// direction of travel.
    pub open spec fn wf_snake(self) -> bool {
        &&& valid_sides(self.width, self.height)
        &&& self.snake.len() == self.score + INITIAL_SNAKE_LENGTH
        &&& snake_shape(self.snake, self.width, self.height)
        &&& in_grid(self.snake[0], self.width, self.height)
        &&& self.state == GameState::Playing ==> self.snake[1] == moved(
            self.snake[0],
            self.direction.reversed(),
        )
        &&& self.next_direction != self.direction.reversed()
        &&& in_grid(self.food, self.width, self.height)
    }

    /// What holds of every game: `wf_snake`, and while the game runs the
    /// food lies on a free cell.
    pub open spec fn wf(self) -> bool {
        &&& self.wf_snake()
        &&& self.state == GameState::Playing ==> !self.snake.contains(self.food)
    }

    /// The snake's head.
    pub open spec fn head(self) -> Position {
        self.snake[0]
    }

    /// The cell the head enters at the next tick.
    pub open spec fn target(self) -> Position {
        moved(self.head(), self.next_direction)
    }

    /// Whether the next tick runs the head into a wall or into the snake.
    /// The tail's cell counts as occupied, though the tail is about to
    /// leave it.
    pub open spec fn crashes(self) -> bool {
        !in_grid(self.target(), self.width, self.height) || self.snake.contains(self.target())
    }

    /// Whether the next tick brings the head onto the food.
    pub open spec fn eats(self) -> bool {
        !self.crashes() && self.target() == self.food
    }

    /// The cells the snake leaves free, in row-major order.
    pub open spec fn free(self) -> Seq<Position> {
        free_cells(self.snake, self.width, self.height)
    }

    /// The game after a request to turn towards `wanted`: the request is
    /// queued unless it would reverse the direction of travel.
    pub open spec fn turned(self, wanted: Direction) -> GameModel {
        if wanted != self.direction.reversed() {
            GameModel { next_direction: wanted, ..self }
        } else {
            self
        }
    }

    /// The game with the food on `cell`.
    pub open spec fn with_food(self, cell: Position) -> GameModel {
        GameModel { food: cell, ..self }
    }

    /// The game after new food was asked for and fell on `cell`. With no
    /// free cell left the food stays where it is and the game is over.
    pub open spec fn respawned(self, cell: Position) -> GameModel {
        if self.free().len() == 0 {
            GameModel { state: GameState::GameOver, ..self }
        } else {
            self.with_food(cell)
        }
    }

    /// The game after the head crashed: the queued direction was taken up
    /// and the game is over.
    pub open spec fn crashed(self) -> GameModel {
        GameModel { direction: self.next_direction, state: GameState::GameOver, ..self }
    }

    /// The game after the snake crept one cell on: the head entered the
    /// target cell and the tail left its own.
    pub open spec fn crept(self) -> GameModel {
        GameModel {
            direction: self.next_direction,
            snake: seq![self.target()] + self.snake.drop_last(),
            ..self
        }
    }

    /// The game after the head entered the food's cell and before new food
    /// is placed: the snake is one segment longer, the score one higher.
    pub open spec fn grown(self) -> GameModel {
        GameModel {
            direction: self.next_direction,
            snake: seq![self.target()] + self.snake,
            score: self.score + 1,
            ..self
        }
    }

    /// The game one tick later, where `cell` is the cell that new food fell
    /// on if the snake ate.
    pub open spec fn ticked(self, cell: Position) -> GameModel {
        if self.state != GameState::Playing {
            self
        } else if self.crashes() {
            self.crashed()
        } else if self.eats() {
            self.grown().respawned(cell)
        } else {
            self.crept()
        }
    }
}

/// The snake a game starts with has the shape of a snake.
pub proof fn lemma_initial_shape(width: int, height: int)
    requires
        valid_sides(width, height),
    ensures
        snake_shape(initial_snake(width, height), width, height),
        in_grid(initial_snake(width, height)[0], width, height),
{
    reveal(snake_shape);
}

/// A new head on a free cell of the board next to the old head keeps the
/// shape of the snake, whether the tail stays or leaves.
pub proof fn lemma_shape_kept(snake: Seq<Position>, width: int, height: int, head: Position)
    requires
        snake_shape(snake, width, height),
        snake.len() >= 2,
        in_grid(head, width, height),
        adjacent(head, snake[0]),
        !snake.contains(head),
    ensures
        snake_shape(seq![head] + snake, width, height),
        snake_shape(seq![head] + snake.drop_last(), width, height),
{
    reveal(snake_shape);
    let grown = seq![head] + snake;
    let crept = seq![head] + snake.drop_last();
    assert forall|i: int| 1 <= i < grown.len() implies grown[i] == snake[i - 1] by {}
    assert forall|i: int| 1 <= i < crept.len() implies crept[i] == snake[i - 1] by {}
    assert forall|i: int| 0 <= i < snake.len() implies snake[i] != head by {
        assert(snake.contains(snake[i]));
    }
    assert forall|i: int| 0 <= i < grown.len() - 1 implies adjacent(
        #[trigger] grown[i],
        grown[i + 1],
    ) by {
        if i > 0 {
            assert(adjacent(snake[i - 1], snake[i - 1 + 1]));
        }
    }
    assert forall|i: int| 0 <= i < crept.len() - 1 implies adjacent(
        #[trigger] crept[i],
        crept[i + 1],
    ) by {
        if i > 0 {
            assert(adjacent(snake[i - 1], snake[i - 1 + 1]));
        }
    }
    assert forall|i: int| 0 <= i < grown.len() - 2 implies in_grid(
        #[trigger] grown[i],
        width,
        height,
    ) by {
        if i > 0 {
            assert(in_grid(snake[i - 1], width, height));
        }
    }
    assert forall|i: int| 0 <= i < crept.len() - 2 implies in_grid(
        #[trigger] crept[i],
        width,
        height,
    ) by {
        if i > 0 {
            assert(in_grid(snake[i - 1], width, height));
        }
    }
}

/// A crash leaves a well-formed game.
pub proof fn lemma_crashed_wf(game: GameModel)
    requires
        game.wf(),
    ensures
        game.crashed().wf(),
{
}

/// In a running game the target cell lies next to the head, and never on
/// the segment behind the head: the snake cannot turn back on itself.
pub proof fn lemma_target_beside_head(game: GameModel)
    requires
        game.wf(),
        game.state == GameState::Playing,
    ensures
        adjacent(game.target(), game.head()),
        game.target() != game.snake[1],
        game.head() == moved(game.target(), game.next_direction.reversed()),
{
}

/// Creeping one cell on leaves a well-formed game.
pub proof fn lemma_crept_wf(game: GameModel)
    requires
        game.wf(),
        game.state == GameState::Playing,
        !game.crashes(),
        !game.eats(),
    ensures
        game.crept().wf(),
{
    let before = game.snake;
    let after = game.crept().snake;
    lemma_target_beside_head(game);
    lemma_shape_kept(before, game.width, game.height, game.target());
    assert(after[0] == game.target());
    assert(after[1] == before[0]);
    assert(!after.contains(game.food)) by {
        if after.contains(game.food) {
            let i = choose|i: int| 0 <= i < after.len() && after[i] == game.food;
            assert(before.contains(before[i - 1]));
        }
    }
}

/// Eating leaves a snake that is well-formed but for the food, which now
/// lies under the head; and the new score is no more than the number of
/// cells.
pub proof fn lemma_grown_wf(game: GameModel)
    requires
        game.wf(),
        game.state == GameState::Playing,
        game.eats(),
    ensures
        game.grown().wf_snake(),
        game.score < game.width * game.height <= MAX_SIDE * MAX_SIDE,
{
    let before = game.snake;
    let after = game.grown().snake;
    lemma_target_beside_head(game);
    lemma_score_bounded(game);
    lemma_shape_kept(before, game.width, game.height, game.target());
    assert(after[0] == game.target());
    assert(after[1] == before[0]);
}

/// While the game runs the score is less than the number of cells: the
/// snake's segments on the board are distinct cells, and the food holds
/// one more.
pub proof fn lemma_score_bounded(game: GameModel)
    requires
        game.wf(),
        game.state == GameState::Playing,
    ensures
        game.score < game.width * game.height <= MAX_SIDE * MAX_SIDE,
{
    reveal(snake_shape);
    let body = game.snake.subrange(0, game.snake.len() - 2);
    let cells = body.push(game.food);
    assert forall|i: int, j: int|
        0 <= i < cells.len() && 0 <= j < cells.len() && i != j implies cells[i] != cells[j] by {
        if i < body.len() && j < body.len() {
            assert(game.snake[i] != game.snake[j]);
        } else if i < body.len() {
            assert(game.snake.contains(game.snake[i]));
        } else {
            assert(game.snake.contains(game.snake[j]));
        }
    }
    assert forall|i: int| 0 <= i < cells.len() implies in_grid(
        #[trigger] cells[i],
        game.width,
        game.height,
    ) by {
        if i < body.len() {
            assert(in_grid(game.snake[i], game.width, game.height));
        }
    }
    lemma_distinct_cells_bounded(cells, game.width, game.height);
    assert(game.width * game.height <= MAX_SIDE * MAX_SIDE) by (nonlinear_arith)
        requires
            valid_sides(game.width, game.height),
    ;
}

/// Every tick leaves a well-formed game, whichever free cell new food
/// falls on.
pub proof fn lemma_tick_keeps_wf(game: GameModel, cell: Position)
    requires
        game.wf(),
        game.state == GameState::Playing && game.eats() && game.grown().free().len() > 0
            ==> game.grown().free().contains(cell),
    ensures
        game.ticked(cell).wf(),
{
    if game.state == GameState::Playing {
        if game.crashes() {
            lemma_crashed_wf(game);
        } else if game.eats() {
            lemma_grown_wf(game);
            lemma_free_cells_exact(game.grown().snake, game.width, game.height);
        } else {
            lemma_crept_wf(game);
        }
    }
}

/// A tick never lowers the score, and raises it by one when the snake
/// eats; the snake is always three segments longer than the score.
pub proof fn lemma_tick_score(game: GameModel, cell: Position)
    requires
        game.wf(),
    ensures
        game.ticked(cell).score == if game.state == GameState::Playing && game.eats() {
            game.score + 1
        } else {
            game.score
        },
        game.ticked(cell).snake.len() == game.ticked(cell).score + INITIAL_SNAKE_LENGTH,
{
}

/// A game that is over stays as it is, whatever ticks and turns follow.
pub proof fn lemma_game_over_is_final(game: GameModel, cell: Position, wanted: Direction)
    requires
        game.state == GameState::GameOver,
    ensures
        game.ticked(cell) == game,
        game.turned(wanted).ticked(cell).state == GameState::GameOver,
        game.turned(wanted).ticked(cell).snake == game.snake,
        game.turned(wanted).ticked(cell).score == game.score,
{
}

/// The tick is never longer than at the start nor shorter than the
/// minimum, and a higher score never makes it longer.
pub proof fn lemma_tick_millis_falls(fewer: nat, more: nat)
    requires
        fewer <= more,
    ensures
        MIN_TICK_MS <= tick_millis_for(more) <= tick_millis_for(fewer) <= BASE_TICK_MS,
{
}

} // verus!
