//! Keyboard input, as far as the game reads it.

use crate::game::Game;
use crate::geometry::Direction;
use crate::model::GameModel;
use vstd::prelude::*;

verus! {

/// A key of the keyboard.
#[derive(Clone, Copy, Debug, PartialEq, Eq, Structural)]
pub enum Key {
    /// The escape key.
    Esc,
    /// A key that types a character.
    Char(char),
    /// Any other key.
    Other,
}

/// The direction that the key typing `c` steers towards: `w`, `a`, `s`
/// and `d`, in either case, stand for up, left, down and right.
pub open spec fn steering(c: char) -> Option<Direction> {
    if c == 'w' || c == 'W' {
        Some(Direction::Up)
    } else if c == 's' || c == 'S' {
        Some(Direction::Down)
    } else if c == 'a' || c == 'A' {
        Some(Direction::Left)
    } else if c == 'd' || c == 'D' {
        Some(Direction::Right)
    } else {
        None
    }
}

/// The game after `key` was pressed or, with `pressed` false, held or
/// let go: only a press of a steering key changes anything.
pub open spec fn after_key(game: GameModel, key: Key, pressed: bool) -> GameModel {
    match key {
        Key::Char(c) if pressed && steering(c) is Some => game.turned(steering(c)->0),
        _ => game,
    }
}

/// The direction that the key typing `c` steers towards, if any.
pub fn direction_for(c: char) -> (direction: Option<Direction>)
    ensures
        direction == steering(c),
{
    if c == 'w' || c == 'W' {
        Some(Direction::Up)
    } else if c == 's' || c == 'S' {
        Some(Direction::Down)
    } else if c == 'a' || c == 'A' {
        Some(Direction::Left)
    } else if c == 'd' || c == 'D' {
        Some(Direction::Right)
    } else {
        None
    }
}

/// Feeds a keyboard event to the game and says whether the player asked
/// to quit. A press of the escape key asks to quit. A press of a steering
/// key asks the snake to turn that way. Anything else is ignored.
pub fn handle_key(game: &mut Game, key: Key, pressed: bool) -> (quit: bool)
    ensures
        quit == (pressed && key == Key::Esc),
        final(game)@ == after_key(old(game)@, key, pressed),
        old(game)@.wf() ==> final(game)@.wf(),
{
    if !pressed {
        return false;
    }
    match key {
        Key::Esc => true,
        Key::Char(c) => {
            match direction_for(c) {
                Some(direction) => game.change_direction(direction),
                None => {},
            }
            false
        },
        Key::Other => false,
    }
}

} // verus!
