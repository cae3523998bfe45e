//! The food item and its re-placement algorithm.

use vstd::prelude::*;

use crate::grid::generate_random_position;
use crate::position::{stepped_coord, Position};

verus! {

/// Linear membership test over a list of cells.
pub fn contains_position(v: &Vec<Position>, p: Position) -> (r: bool)
    ensures
        r == v@.contains(p),
{
    let mut i: usize = 0;
    while i < v.len()
        invariant
            0 <= i <= v@.len(),
            forall|j: int| 0 <= j < i ==> v@[j] != p,
        decreases v@.len() - i,
    {
        if v[i] == p {
            return true;
        }
        i = i + 1;
    }
    false
}

/// The single food item on the board.
pub struct Food {
    pub position: Position,
}

impl Food {
    /// A food item at a random cell of the stepped coordinate ranges.
    pub fn new(width: i16, height: i16) -> (r: Food)
        requires
            0 <= width,
            0 <= height,
        ensures
            stepped_coord(r.position.x as int, width as int),
            stepped_coord(r.position.y as int, height as int),
    {
        let init_position = generate_random_position(width, height);
        Food { position: init_position }
    }

    /// A free cell for the food after it was eaten: some element of
    /// the set difference `all_positions - invalid_positions`, or
    /// nothing when every cell is occupied (the board is full).
    pub fn refresh_position(
        &self,
        all_positions: Vec<Position>,
        invalid_positions: Vec<Position>,
    ) -> (r: Option<Position>)
        ensures
            match r {
                Some(p) => all_positions@.contains(p) && !invalid_positions@.contains(p),
                None => forall|p: Position|
                    all_positions@.contains(p) ==> invalid_positions@.contains(p),
            },
    {
        let mut i: usize = 0;
        while i < all_positions.len()
            invariant
                0 <= i <= all_positions@.len(),
                forall|j: int|
                    0 <= j < i ==> invalid_positions@.contains(#[trigger] all_positions@[j]),
            decreases all_positions@.len() - i,
        {
            let candidate = all_positions[i];
            if !contains_position(&invalid_positions, candidate) {
                return Some(candidate);
            }
            i = i + 1;
        }
        None
    }
}

} // verus!
