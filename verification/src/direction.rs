//! Cardinal headings and the rule that forbids instantaneous reversal.

use vstd::prelude::*;

verus! {

/// One of the four cardinal headings of the snake.
#[derive(Clone, Copy, PartialEq, Eq, Debug, Structural)]
pub enum Direction {
    Up,
    Down,
    Left,
    Right,
}

/// `a` and `b` are exact opposites (a 180-degree reversal).
pub open spec fn is_opposite(a: Direction, b: Direction) -> bool {
    match (a, b) {
        (Direction::Up, Direction::Down) => true,
        (Direction::Down, Direction::Up) => true,
        (Direction::Left, Direction::Right) => true,
        (Direction::Right, Direction::Left) => true,
        _ => false,
    }
}

/// A change of heading conflicts exactly when the new heading is the
/// cardinal opposite of the previous one; identical or perpendicular
/// headings never conflict.
pub fn is_direction_conflict(prev_direction: &Direction, new_direction: Direction) -> (r: bool)
    ensures
        r == is_opposite(*prev_direction, new_direction),
{
    if (matches!(prev_direction, Direction::Up) && matches!(new_direction, Direction::Down))
        || (matches!(prev_direction, Direction::Down) && matches!(new_direction, Direction::Up))
        || (matches!(prev_direction, Direction::Left) && matches!(new_direction, Direction::Right))
        || (matches!(prev_direction, Direction::Right) && matches!(new_direction, Direction::Left))
    {
        true
    } else {
        false
    }
}

} // verus!
