//! The atomic grid coordinate type.

use vstd::prelude::*;

verus! {

/// One grid cell, identified by the `(x, y)` pixel coordinate of its
/// top-left corner.  On a well-formed board both coordinates are
/// multiples of `SQUARE_SIZE` within the playing field.
#[derive(Clone, Copy, PartialEq, Eq, Hash, Debug, Structural)]
pub struct Position {
    pub x: i16,
    pub y: i16,
}

/// `p` is a cell of the grid of the given pixel dimensions: each
/// coordinate is a multiple of the cell size and the whole square
/// lies inside the field.
/// `c` is a coordinate of the stepped range of an axis of pixel
/// length `dim`: a multiple of the cell size no larger than
/// `dim - SQUARE_SIZE`, or the fallback `0` when that range is empty.
pub open spec fn stepped_coord(c: int, dim: int) -> bool {
    if dim >= crate::SQUARE_SIZE {
        0 <= c <= dim - crate::SQUARE_SIZE && c % (crate::SQUARE_SIZE as int) == 0
    } else {
        c == 0
    }
}

pub open spec fn in_grid(p: Position, width: int, height: int) -> bool {
    &&& 0 <= p.x as int <= width - crate::SQUARE_SIZE
    &&& p.x as int % (crate::SQUARE_SIZE as int) == 0
    &&& 0 <= p.y as int <= height - crate::SQUARE_SIZE
    &&& p.y as int % (crate::SQUARE_SIZE as int) == 0
}

} // verus!
