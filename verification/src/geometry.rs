//! Positions on the board and the four directions of travel.

use vstd::prelude::*;

verus! {

/// A cell coordinate. The board's cells have `0 <= x < width` and
/// `0 <= y < height`; a position outside that range lies off the board.
#[derive(Clone, Copy, Debug, PartialEq, Eq, Structural)]
pub struct Position {
    pub x: i16,
    pub y: i16,
}

/// A direction of travel. `Up` is towards smaller `y`.
#[derive(Clone, Copy, Debug, PartialEq, Eq, Structural)]
pub enum Direction {
    Up,
    Down,
    Left,
    Right,
}

impl Direction {
    /// The direction pointing the other way.
    pub open spec fn reversed(self) -> Direction {
        match self {
            Direction::Up => Direction::Down,
            Direction::Down => Direction::Up,
            Direction::Left => Direction::Right,
            Direction::Right => Direction::Left,
        }
    }

    /// The change in `x` of one step in this direction.
    pub open spec fn dx(self) -> int {
        match self {
            Direction::Left => -1,
            Direction::Right => 1,
            _ => 0,
        }
    }

    /// The change in `y` of one step in this direction.
    pub open spec fn dy(self) -> int {
        match self {
            Direction::Up => -1,
            Direction::Down => 1,
            _ => 0,
        }
    }

    /// Returns the direction pointing the other way.
    pub fn opposite(&self) -> (r: Direction)
        ensures
            r == self.reversed(),
    {
        match self {
            Direction::Up => Direction::Down,
            Direction::Down => Direction::Up,
            Direction::Left => Direction::Right,
            Direction::Right => Direction::Left,
        }
    }
}

/// Whether `p` is a cell of a board `width` wide and `height` high.
pub open spec fn in_grid(p: Position, width: int, height: int) -> bool {
    0 <= p.x < width && 0 <= p.y < height
}

/// The cell one step from `p` in direction `d`.
pub open spec fn moved(p: Position, d: Direction) -> Position {
    Position { x: (p.x + d.dx()) as i16, y: (p.y + d.dy()) as i16 }
}

/// Whether `p` and `q` are neighbors along a row or a column.
pub open spec fn adjacent(p: Position, q: Position) -> bool {
    ||| p.y == q.y && (p.x - q.x == 1 || q.x - p.x == 1)
    ||| p.x == q.x && (p.y - q.y == 1 || q.y - p.y == 1)
}

/// Turning around twice gives the direction one started with, and no
/// direction is its own opposite.
pub proof fn lemma_reversed_involution(d: Direction)
    ensures
        d.reversed().reversed() == d,
        d.reversed() != d,
        d.reversed().dx() == -d.dx(),
        d.reversed().dy() == -d.dy(),
{
}

} // verus!
