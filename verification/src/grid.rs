//! Enumeration of the whole grid and random choice of a single cell.

use vstd::prelude::*;

use crate::position::{in_grid, stepped_coord, Position};
use crate::rng::{random_index, shuffle_positions};

verus! {

/// Number of distinct cell coordinates along one axis of pixel length
/// `dim`: the values `0, SQUARE_SIZE, 2 * SQUARE_SIZE, ...` up to and
/// including `dim - SQUARE_SIZE`.
pub open spec fn axis_count(dim: int) -> int {
    if dim >= crate::SQUARE_SIZE {
        (dim - crate::SQUARE_SIZE) / (crate::SQUARE_SIZE as int) + 1
    } else {
        0
    }
}

/// Every cell of the `width` by `height` grid, each exactly once, in
/// an arbitrary order that callers must not rely on.  The number of
/// cells is the product of the per-axis step counts.
pub fn generate_all_position(width: i16, height: i16) -> (r: Vec<Position>)
    requires
        0 <= width,
        0 <= height,
    ensures
        r@.no_duplicates(),
        r@.len() == axis_count(width as int) * axis_count(height as int),
        forall|p: Position| r@.contains(p) <==> in_grid(p, width as int, height as int),
{
    let ghost nx: int = axis_count(width as int);
    let ghost ny: int = axis_count(height as int);
    let mut v: Vec<Position> = Vec::new();
    let mut x: i16 = 0;
    let ghost mut xi: int = 0;
    while x <= width - crate::SQUARE_SIZE
        invariant
            0 <= width,
            0 <= height,
            0 <= x,
            x == xi * 9,
            xi == 0 || (xi - 1) * 9 <= width - 9,
            v@.len() == xi * ny,
            ny == axis_count(height as int),
            v@.no_duplicates(),
            forall|p: Position| v@.contains(p) <==> (in_grid(
                p,
                width as int,
                height as int,
            ) && p.x < x),
        decreases width - x,
    {
        let mut y: i16 = 0;
        let ghost mut yi: int = 0;
        while y <= height - crate::SQUARE_SIZE
            invariant
                0 <= width,
                0 <= height,
                0 <= x <= width - 9,
                x == xi * 9,
                0 <= y,
                y == yi * 9,
                yi == 0 || (yi - 1) * 9 <= height - 9,
                yi <= axis_count(height as int),
                v@.len() == xi * ny + yi,
                ny == axis_count(height as int),
                v@.no_duplicates(),
                forall|p: Position| v@.contains(p) <==> (in_grid(
                    p,
                    width as int,
                    height as int,
                ) && (p.x < x || (p.x == x && p.y < y))),
            decreases height - y,
        {
            let cell = Position { x, y };
            proof {
                assert(in_grid(cell, width as int, height as int));
                assert(!v@.contains(cell));
            }
            let ghost old_v = v@;
            v.push(cell);
            proof {
                yi = yi + 1;
                assert forall|p: Position| v@.contains(p) implies (in_grid(
                    p,
                    width as int,
                    height as int,
                ) && (p.x < x || (p.x == x && p.y < y + 9))) by {
                    let i = choose|i: int| 0 <= i < v@.len() && v@[i] == p;
                    if i < old_v.len() {
                        assert(old_v.contains(p));
                    }
                }
                assert forall|p: Position| (in_grid(p, width as int, height as int) && (p.x < x
                    || (p.x == x && p.y < y + 9))) implies v@.contains(p) by {
                    if p.x < x || (p.x == x && p.y < y) {
                        let i = choose|i: int| 0 <= i < old_v.len() && old_v[i] == p;
                        assert(v@[i] == p);
                    } else {
                        assert(p == cell);
                        assert(v@[v@.len() - 1] == p);
                    }
                }
                assert forall|i: int, j: int|
                    0 <= i < v@.len() && 0 <= j < v@.len() && i != j implies v@[i] != v@[j] by {
                    if i < old_v.len() && j < old_v.len() {
                        assert(old_v[i] == v@[i] && old_v[j] == v@[j]);
                    } else if j == old_v.len() {
                        assert(old_v.contains(v@[i]));
                    } else if i == old_v.len() {
                        assert(old_v.contains(v@[j]));
                    }
                }
            }
            y = y + crate::SQUARE_SIZE;
        }
        proof {
            assert(yi == axis_count(height as int));
            assert((xi + 1) * ny == xi * ny + ny) by (nonlinear_arith);
            xi = xi + 1;
        }
        x = x + crate::SQUARE_SIZE;
    }
    proof {
        assert(xi == nx);
    }
    let ghost built = v@;
    shuffle_positions(&mut v);
    proof {
        broadcast use vstd::seq_lib::group_to_multiset_ensures;

        assert(v@.len() == v@.to_multiset().len());
        assert(built.len() == built.to_multiset().len());
        built.lemma_multiset_has_no_duplicates();
        v@.lemma_multiset_has_no_duplicates_conv();
        assert forall|p: Position| v@.contains(p) <==> built.contains(p) by {
            assert(v@.contains(p) <==> v@.to_multiset().count(p) > 0);
            assert(built.contains(p) <==> built.to_multiset().count(p) > 0);
        }
    }
    v
}

/// A cell chosen uniformly at random on each axis independently from
/// the stepped range `0, SQUARE_SIZE, ...` up to `dim - SQUARE_SIZE`;
/// an axis whose range is empty falls back to coordinate `0`.
pub fn generate_random_position(width: i16, height: i16) -> (r: Position)
    requires
        0 <= width,
        0 <= height,
    ensures
        stepped_coord(r.x as int, width as int),
        stepped_coord(r.y as int, height as int),
        width >= crate::SQUARE_SIZE && height >= crate::SQUARE_SIZE ==> in_grid(
            r,
            width as int,
            height as int,
        ),
{
    let x: i16 = random_axis_coordinate(width);
    let y: i16 = random_axis_coordinate(height);
    Position { x, y }
}

/// One coordinate chosen uniformly at random from the stepped range of
/// one axis, with the fallback to `0` when the range is empty.
fn random_axis_coordinate(dim: i16) -> (r: i16)
    requires
        0 <= dim,
    ensures
        stepped_coord(r as int, dim as int),
{
    if dim >= crate::SQUARE_SIZE {
        let n: i16 = (dim - crate::SQUARE_SIZE) / crate::SQUARE_SIZE + 1;
        let k: usize = random_index(n as usize);
        proof {
            assert(k as int <= (dim - 9) / 9);
            assert((dim - 9) / 9 * 9 <= dim - 9);
            assert(k as int * 9 <= dim - 9);
        }
        (k as i16) * crate::SQUARE_SIZE
    } else {
        0
    }
}

} // verus!
