use snake::game::Game;
use snake::geometry::{Direction, Position};
use snake::model::GameState;

fn at(x: i16, y: i16) -> Position {
    Position { x, y }
}

/// The index that `cell` has among the free cells of `game`, counted
/// row by row from the top left.
fn free_index(game: &Game, cell: Position) -> u32 {
    let snake = game.snake();
    let mut index = 0;
    for y in 0..game.grid_height() as i16 {
        for x in 0..game.grid_width() as i16 {
            if at(x, y) == cell {
                return index;
            }
            if !snake.contains(&at(x, y)) {
                index += 1;
            }
        }
    }
    panic!("the cell is not on the board");
}

/// Puts the food right in front of the head and lets the snake eat it.
fn feed(game: &mut Game, ahead: Position) {
    let k = free_index(game, ahead);
    assert!(game.place_food(k));
    assert_eq!(game.food(), ahead);
    game.tick();
}

/// A fresh 20 by 20 game with the food out of the way, in the top left
/// corner.
fn fresh_game() -> Game {
    let mut game = Game::new(20, 20);
    assert!(game.place_food(0));
    assert_eq!(game.food(), at(0, 0));
    game
}

#[test]
fn opposite_swaps_each_pair_of_directions() {
    assert_eq!(Direction::Up.opposite(), Direction::Down);
    assert_eq!(Direction::Down.opposite(), Direction::Up);
    assert_eq!(Direction::Left.opposite(), Direction::Right);
    assert_eq!(Direction::Right.opposite(), Direction::Left);
}

#[test]
fn opposite_of_opposite_is_the_direction_itself() {
    for d in [Direction::Up, Direction::Down, Direction::Left, Direction::Right] {
        assert_eq!(d.opposite().opposite(), d);
        assert_ne!(d.opposite(), d);
    }
}

#[test]
fn new_game_starts_in_the_center_heading_right() {
    let game = Game::new(20, 20);
    assert_eq!(game.state(), GameState::Playing);
    assert_eq!(game.score(), 0);
    assert_eq!(game.direction(), Direction::Right);
    assert_eq!(game.next_direction(), Direction::Right);
    assert_eq!(game.grid_width(), 20);
    assert_eq!(game.grid_height(), 20);
    assert_eq!(game.head(), at(10, 10));
    assert_eq!(game.snake(), vec![at(10, 10), at(9, 10), at(8, 10)]);
}

#[test]
fn new_game_on_an_odd_board_rounds_the_center_down() {
    let game = Game::new(7, 5);
    assert_eq!(game.snake(), vec![at(3, 2), at(2, 2), at(1, 2)]);
}

#[test]
fn new_game_on_a_narrow_board_lets_the_tail_hang_over_the_edge() {
    let game = Game::new(1, 2);
    assert_eq!(game.state(), GameState::Playing);
    assert_eq!(game.snake(), vec![at(0, 1), at(-1, 1), at(-2, 1)]);
    assert_eq!(game.food(), at(0, 0));
}

#[test]
fn new_game_puts_the_food_on_the_only_free_cell() {
    for _ in 0..50 {
        let game = Game::new(3, 1);
        assert_eq!(game.state(), GameState::Playing);
        assert_eq!(game.snake(), vec![at(1, 0), at(0, 0), at(-1, 0)]);
        assert_eq!(game.food(), at(2, 0));
    }
}

#[test]
fn new_game_without_a_free_cell_is_over() {
    let game = Game::new(1, 1);
    assert_eq!(game.state(), GameState::GameOver);
    assert_eq!(game.snake(), vec![at(0, 0), at(-1, 0), at(-2, 0)]);
    let game = Game::new(2, 1);
    assert_eq!(game.state(), GameState::GameOver);
    assert_eq!(game.score(), 0);
}

#[test]
fn new_game_on_the_largest_board() {
    let game = Game::new(32767, 1);
    assert_eq!(game.state(), GameState::Playing);
    assert_eq!(game.head(), at(16383, 0));
    assert!(!game.covers(game.food()));
}

#[test]
fn food_always_lands_on_a_free_cell_of_the_board() {
    for _ in 0..200 {
        let game = Game::new(4, 3);
        let food = game.food();
        assert!(0 <= food.x && food.x < 4);
        assert!(0 <= food.y && food.y < 3);
        assert!(!game.covers(food));
    }
}

#[test]
fn food_reaches_every_free_cell() {
    let mut seen = Vec::new();
    for _ in 0..2000 {
        let food = Game::new(3, 2).food();
        if !seen.contains(&food) {
            seen.push(food);
        }
    }
    seen.sort_by_key(|p| (p.y, p.x));
    assert_eq!(seen, vec![at(0, 0), at(1, 0), at(2, 0), at(2, 1)]);
}

#[test]
fn tick_moves_the_head_on_and_the_tail_follows() {
    let mut game = fresh_game();
    game.tick();
    assert_eq!(game.snake(), vec![at(11, 10), at(10, 10), at(9, 10)]);
    assert_eq!(game.state(), GameState::Playing);
    assert_eq!(game.score(), 0);
    assert_eq!(game.food(), at(0, 0));
    game.tick();
    assert_eq!(game.snake(), vec![at(12, 10), at(11, 10), at(10, 10)]);
}

#[test]
fn a_turn_is_taken_up_at_the_next_tick() {
    let mut game = fresh_game();
    game.change_direction(Direction::Up);
    assert_eq!(game.direction(), Direction::Right);
    assert_eq!(game.next_direction(), Direction::Up);
    assert_eq!(game.head(), at(10, 10));
    game.tick();
    assert_eq!(game.direction(), Direction::Up);
    assert_eq!(game.snake(), vec![at(10, 9), at(10, 10), at(9, 10)]);
    game.change_direction(Direction::Left);
    game.tick();
    assert_eq!(game.snake(), vec![at(9, 9), at(10, 9), at(10, 10)]);
    game.change_direction(Direction::Down);
    game.tick();
    assert_eq!(game.snake(), vec![at(9, 10), at(9, 9), at(10, 9)]);
}

#[test]
fn a_reversal_is_ignored() {
    let mut game = fresh_game();
    game.change_direction(Direction::Left);
    assert_eq!(game.next_direction(), Direction::Right);
    game.tick();
    assert_eq!(game.head(), at(11, 10));
    game.change_direction(Direction::Down);
    game.tick();
    game.change_direction(Direction::Up);
    assert_eq!(game.next_direction(), Direction::Down);
    game.tick();
    assert_eq!(game.head(), at(11, 12));
}

#[test]
fn the_same_direction_again_changes_nothing() {
    let mut game = fresh_game();
    game.change_direction(Direction::Right);
    assert_eq!(game.next_direction(), Direction::Right);
    game.tick();
    assert_eq!(game.head(), at(11, 10));
}

#[test]
fn a_reversal_is_judged_against_the_direction_of_travel() {
    let mut game = fresh_game();
    game.change_direction(Direction::Up);
    // Left reverses the direction of travel, whatever is queued.
    game.change_direction(Direction::Left);
    assert_eq!(game.next_direction(), Direction::Up);
    // Down reverses only what is queued: it replaces it.
    game.change_direction(Direction::Down);
    assert_eq!(game.next_direction(), Direction::Down);
    game.tick();
    assert_eq!(game.snake(), vec![at(10, 11), at(10, 10), at(9, 10)]);
}

#[test]
fn running_into_the_right_wall_ends_the_game() {
    let mut game = fresh_game();
    for step in 1..=9 {
        game.tick();
        assert_eq!(game.state(), GameState::Playing);
        assert_eq!(game.head(), at(10 + step, 10));
    }
    game.tick();
    assert_eq!(game.state(), GameState::GameOver);
    assert_eq!(game.snake(), vec![at(19, 10), at(18, 10), at(17, 10)]);
    assert_eq!(game.score(), 0);
}

#[test]
fn running_into_the_top_wall_ends_the_game() {
    let mut game = Game::new(20, 20);
    assert!(game.place_food(396));
    assert_eq!(game.food(), at(19, 19));
    game.change_direction(Direction::Up);
    for _ in 0..10 {
        game.tick();
    }
    assert_eq!(game.state(), GameState::Playing);
    assert_eq!(game.head(), at(10, 0));
    game.tick();
    assert_eq!(game.state(), GameState::GameOver);
    assert_eq!(game.head(), at(10, 0));
}

#[test]
fn running_into_the_left_and_bottom_walls_ends_the_game() {
    let mut game = fresh_game();
    game.change_direction(Direction::Down);
    for _ in 0..9 {
        game.tick();
    }
    assert_eq!(game.head(), at(10, 19));
    assert_eq!(game.state(), GameState::Playing);
    game.tick();
    assert_eq!(game.state(), GameState::GameOver);

    let mut game = Game::new(20, 20);
    assert!(game.place_food(396));
    game.change_direction(Direction::Down);
    game.tick();
    game.change_direction(Direction::Left);
    for _ in 0..10 {
        game.tick();
    }
    assert_eq!(game.head(), at(0, 11));
    assert_eq!(game.state(), GameState::Playing);
    game.tick();
    assert_eq!(game.state(), GameState::GameOver);
    assert_eq!(game.head(), at(0, 11));
}

#[test]
fn a_crash_takes_up_the_queued_direction() {
    let mut game = fresh_game();
    for _ in 0..9 {
        game.tick();
    }
    game.change_direction(Direction::Up);
    game.tick();
    game.change_direction(Direction::Right);
    game.tick();
    assert_eq!(game.state(), GameState::GameOver);
    assert_eq!(game.direction(), Direction::Right);
    assert_eq!(game.head(), at(19, 9));
}

#[test]
fn eating_grows_the_snake_and_raises_the_score() {
    let mut game = fresh_game();
    feed(&mut game, at(11, 10));
    assert_eq!(game.state(), GameState::Playing);
    assert_eq!(game.score(), 1);
    assert_eq!(game.snake(), vec![at(11, 10), at(10, 10), at(9, 10), at(8, 10)]);
    let food = game.food();
    assert!(!game.covers(food));
    assert!(0 <= food.x && food.x < 20 && 0 <= food.y && food.y < 20);
    feed(&mut game, at(12, 10));
    assert_eq!(game.score(), 2);
    assert_eq!(
        game.snake(),
        vec![at(12, 10), at(11, 10), at(10, 10), at(9, 10), at(8, 10)]
    );
}

#[test]
fn snake_length_is_three_more_than_the_score() {
    let mut game = Game::new(40, 3);
    for eaten in 1..=15 {
        let head = game.head();
        feed(&mut game, at(head.x + 1, head.y));
        assert_eq!(game.score(), eaten);
        assert_eq!(game.snake().len(), eaten as usize + 3);
    }
}

#[test]
fn running_into_the_body_ends_the_game() {
    let mut game = fresh_game();
    feed(&mut game, at(11, 10));
    feed(&mut game, at(12, 10));
    assert!(game.place_food(0));
    game.change_direction(Direction::Up);
    game.tick();
    game.change_direction(Direction::Left);
    game.tick();
    assert_eq!(
        game.snake(),
        vec![at(11, 9), at(12, 9), at(12, 10), at(11, 10), at(10, 10)]
    );
    game.change_direction(Direction::Down);
    game.tick();
    assert_eq!(game.state(), GameState::GameOver);
    assert_eq!(game.score(), 2);
    assert_eq!(
        game.snake(),
        vec![at(11, 9), at(12, 9), at(12, 10), at(11, 10), at(10, 10)]
    );
}

#[test]
fn moving_onto_the_tail_cell_is_a_crash() {
    let mut game = fresh_game();
    feed(&mut game, at(11, 10));
    assert!(game.place_food(0));
    game.change_direction(Direction::Up);
    game.tick();
    game.change_direction(Direction::Left);
    game.tick();
    assert_eq!(game.snake(), vec![at(10, 9), at(11, 9), at(11, 10), at(10, 10)]);
    game.change_direction(Direction::Down);
    game.tick();
    assert_eq!(game.state(), GameState::GameOver);
    assert_eq!(game.head(), at(10, 9));
}

#[test]
fn a_finished_game_no_longer_changes() {
    let mut game = fresh_game();
    for _ in 0..10 {
        game.tick();
    }
    assert_eq!(game.state(), GameState::GameOver);
    let snake = game.snake();
    let food = game.food();
    let direction = game.direction();
    for _ in 0..5 {
        game.tick();
        assert_eq!(game.state(), GameState::GameOver);
        assert_eq!(game.snake(), snake);
        assert_eq!(game.food(), food);
        assert_eq!(game.score(), 0);
        assert_eq!(game.direction(), direction);
    }
}

#[test]
fn a_finished_game_still_queues_turns() {
    let mut game = fresh_game();
    for _ in 0..10 {
        game.tick();
    }
    assert_eq!(game.state(), GameState::GameOver);
    game.change_direction(Direction::Up);
    assert_eq!(game.next_direction(), Direction::Up);
    game.tick();
    assert_eq!(game.direction(), Direction::Right);
    assert_eq!(game.state(), GameState::GameOver);
}

#[test]
fn filling_the_board_ends_the_game() {
    let mut game = Game::new(3, 1);
    assert_eq!(game.food(), at(2, 0));
    game.tick();
    assert_eq!(game.snake(), vec![at(2, 0), at(1, 0), at(0, 0), at(-1, 0)]);
    assert_eq!(game.score(), 1);
    assert_eq!(game.state(), GameState::GameOver);
    assert_eq!(game.food(), at(2, 0));
}

#[test]
fn score_stays_below_the_number_of_cells() {
    // On a board of two rows of three the snake can eat three times.
    let mut game = Game::new(3, 2);
    assert_eq!(game.snake(), vec![at(1, 1), at(0, 1), at(-1, 1)]);
    feed(&mut game, at(2, 1));
    game.change_direction(Direction::Up);
    feed(&mut game, at(2, 0));
    game.change_direction(Direction::Left);
    feed(&mut game, at(1, 0));
    assert_eq!(game.score(), 3);
    assert_eq!(game.state(), GameState::Playing);
    assert_eq!(game.food(), at(0, 0));
    game.tick();
    assert_eq!(game.score(), 4);
    assert_eq!(game.state(), GameState::GameOver);
    assert!(game.score() < 3 * 2);
}
