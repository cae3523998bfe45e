//! The snake: its ordered body, the parallel membership set and the
//! current heading.

use vstd::prelude::*;

use crate::direction::Direction;
use crate::grid::generate_random_position;
use crate::position::{stepped_coord, Position};
use crate::rng::random_index;

verus! {

/// The segmented body of the snake.  `body` is ordered head-first;
/// `body_set` carries the same cells without order, for membership
/// tests.
pub struct Snake {
    pub body: Vec<Position>,
    pub body_set: Vec<Position>,
    pub direction: Direction,
}

impl Snake {
    /// `body_set` holds exactly the cells of `body`, each once.
    pub open spec fn set_matches_body(self) -> bool {
        &&& self.body_set@.no_duplicates()
        &&& forall|p: Position| self.body_set@.contains(p) <==> self.body@.contains(p)
    }

    /// A snake of length one at a random cell, with a random heading.
    pub fn new(width: i16, height: i16) -> (r: Snake)
        requires
            0 <= width,
            0 <= height,
        ensures
            r.body@.len() == 1,
            r.body_set@ == r.body@,
            r.body@.no_duplicates(),
            r.set_matches_body(),
            stepped_coord(r.body@[0].x as int, width as int),
            stepped_coord(r.body@[0].y as int, height as int),
    {
        let dir_index = random_index(4);
        let init_direction = if dir_index == 0 {
            Direction::Up
        } else if dir_index == 1 {
            Direction::Down
        } else if dir_index == 2 {
            Direction::Left
        } else {
            Direction::Right
        };
        let init_position = generate_random_position(width, height);
        let mut body_vec: Vec<Position> = Vec::new();
        let mut body_hashset: Vec<Position> = Vec::new();
        body_vec.push(init_position);
        body_hashset.push(init_position);
        Snake { body: body_vec, body_set: body_hashset, direction: init_direction }
    }
}

/// An exact copy of a list of cells.
pub fn copy_positions(v: &Vec<Position>) -> (r: Vec<Position>)
    ensures
        r@ == v@,
{
    let mut r: Vec<Position> = Vec::new();
    let mut i: usize = 0;
    while i < v.len()
        invariant
            0 <= i <= v@.len(),
            r@ == v@.subrange(0, i as int),
        decreases v@.len() - i,
    {
        r.push(v[i]);
        proof {
            assert(r@ =~= v@.subrange(0, i as int + 1));
        }
        i = i + 1;
    }
    proof {
        assert(r@ =~= v@);
    }
    r
}

/// Removal of one cell from an unordered, duplicate-free list of
/// cells: afterwards the list holds exactly the other cells.
pub fn remove_position(v: &mut Vec<Position>, p: Position)
    requires
        old(v)@.no_duplicates(),
    ensures
        final(v)@.no_duplicates(),
        forall|q: Position| final(v)@.contains(q) <==> (old(v)@.contains(q) && q != p),
        old(v)@.contains(p) ==> final(v)@.len() == old(v)@.len() - 1,
        !old(v)@.contains(p) ==> final(v)@ == old(v)@,
{
    let mut i: usize = 0;
    while i < v.len()
        invariant
            0 <= i <= v@.len(),
            v@ == old(v)@,
            v@.no_duplicates(),
            forall|j: int| 0 <= j < i ==> v@[j] != p,
        decreases v@.len() - i,
    {
        if v[i] == p {
            let ghost pre = v@;
            v.remove(i);
            proof {
                broadcast use vstd::seq_lib::group_to_multiset_ensures;

                pre.lemma_multiset_has_no_duplicates();
                assert(v@.to_multiset() =~= pre.to_multiset().remove(p));
                assert forall|q: Position| v@.contains(q) <==> (pre.contains(q) && q != p) by {
                    assert(v@.contains(q) <==> v@.to_multiset().count(q) > 0);
                    assert(pre.contains(q) <==> pre.to_multiset().count(q) > 0);
                }
                v@.lemma_multiset_has_no_duplicates_conv();
            }
            return ;
        }
        i = i + 1;
    }
}

} // verus!
