use snake::game::Game;
use snake::geometry::Position;
use snake::model::{BASE_TICK_MS, MIN_TICK_MS, SPEED_INCREASE_PER_FOOD};
use std::time::Duration;

/// A game on a long board in which the snake has eaten `meals` times.
fn game_after(meals: u32) -> Game {
    let mut game = Game::new(100, 3);
    for _ in 0..meals {
        let head = game.head();
        let ahead = Position { x: head.x + 1, y: head.y };
        // The cells of the row above are free, and so are those of the
        // middle row left of the snake's tail.
        let k = 100 + (ahead.x as u32 - game.snake().len() as u32);
        assert!(game.place_food(k));
        assert_eq!(game.food(), ahead);
        game.tick();
    }
    assert_eq!(game.score(), meals);
    game
}

#[test]
fn tick_starts_at_the_base_length() {
    let game = Game::new(20, 20);
    assert_eq!(game.tick_millis(), 200);
    assert_eq!(game.tick_duration(), Duration::from_millis(200));
}

#[test]
fn each_meal_shortens_the_tick_by_five_milliseconds() {
    assert_eq!(game_after(1).tick_millis(), 195);
    assert_eq!(game_after(2).tick_millis(), 190);
    assert_eq!(game_after(10).tick_millis(), 150);
    assert_eq!(game_after(10).tick_duration(), Duration::from_millis(150));
}

#[test]
fn tick_stops_shrinking_at_the_minimum() {
    assert_eq!(game_after(29).tick_millis(), 55);
    assert_eq!(game_after(30).tick_millis(), 50);
    assert_eq!(game_after(31).tick_millis(), 50);
    assert_eq!(game_after(45).tick_millis(), 50);
    assert_eq!(game_after(45).tick_duration(), Duration::from_millis(50));
}

#[test]
fn tick_constants() {
    assert_eq!(BASE_TICK_MS, 200);
    assert_eq!(MIN_TICK_MS, 50);
    assert_eq!(SPEED_INCREASE_PER_FOOD, 5);
}

#[test]
fn tick_never_grows_with_the_score() {
    let mut last = u64::MAX;
    for meals in 0..40 {
        let now = game_after(meals).tick_millis();
        assert!(now <= last);
        assert!(MIN_TICK_MS <= now && now <= BASE_TICK_MS);
        last = now;
    }
}
