//! Cells of the toroidal board and the four directions of travel.

use vstd::prelude::*;

verus! {

/// A board position in cell units.
#[derive(Clone, Copy, Debug, PartialEq, Eq, Structural)]
pub struct Cell {
    pub x: usize,
    pub y: usize,
}

impl Cell {
    /// The cell lies on a board of `width` by `height` cells.
    pub open spec fn within(self, width: usize, height: usize) -> bool {
        self.x < width && self.y < height
    }

    /// Row-major number of the cell on a board `width` cells wide.
    pub open spec fn index(self, width: usize) -> int {
        self.y * width + self.x
    }

    /// The cell with row-major number `index` on a board `width` cells wide.
    pub open spec fn at(index: int, width: usize) -> Cell {
        Cell { x: (index % (width as int)) as usize, y: (index / (width as int)) as usize }
    }
}

/// One step back along an axis of length `dim`, leaving through zero onto
/// the far edge.
pub open spec fn wrap_dec(v: usize, dim: usize) -> usize {
    if v == 0 {
        (dim - 1) as usize
    } else {
        (v - 1) as usize
    }
}

/// One step forward along an axis of length `dim`, leaving through the far
/// edge onto zero.
pub open spec fn wrap_inc(v: usize, dim: usize) -> usize {
    if v + 1 >= dim {
        0
    } else {
        (v + 1) as usize
    }
}

/// A direction of travel. `Up` is towards row zero.
#[derive(Clone, Copy, Debug, PartialEq, Eq, Structural)]
pub enum Direction {
    Left,
    Right,
    Up,
    Down,
}

impl Direction {
    /// The direction pointing the other way.
    pub open spec fn reversed(self) -> Direction {
        match self {
            Direction::Left => Direction::Right,
            Direction::Right => Direction::Left,
            Direction::Up => Direction::Down,
            Direction::Down => Direction::Up,
        }
    }

    /// The neighbour of `pos` in this direction on a torus of `width` by
    /// `height` cells.
    pub open spec fn stepped(self, pos: Cell, width: usize, height: usize) -> Cell {
        match self {
            Direction::Left => Cell { x: wrap_dec(pos.x, width), y: pos.y },
            Direction::Right => Cell { x: wrap_inc(pos.x, width), y: pos.y },
            Direction::Up => Cell { x: pos.x, y: wrap_dec(pos.y, height) },
            Direction::Down => Cell { x: pos.x, y: wrap_inc(pos.y, height) },
        }
    }

    /// The direction pointing the other way.
    pub fn opposite(self) -> (r: Direction)
        ensures
            r == self.reversed(),
    {
        match self {
            Direction::Left => Direction::Right,
            Direction::Right => Direction::Left,
            Direction::Up => Direction::Down,
            Direction::Down => Direction::Up,
        }
    }

    /// Moves `pos` one cell in this direction, wrapping at the board's edges.
    pub fn step(self, pos: &mut Cell, width: usize, height: usize)
        requires
            old(pos).within(width, height),
        ensures
            *final(pos) == self.stepped(*old(pos), width, height),
            final(pos).within(width, height),
    {
        match self {
            Direction::Left => {
                pos.x = if pos.x == 0 { width - 1 } else { pos.x - 1 };
            },
            Direction::Right => {
                pos.x = if pos.x + 1 >= width { 0 } else { pos.x + 1 };
            },
            Direction::Up => {
                pos.y = if pos.y == 0 { height - 1 } else { pos.y - 1 };
            },
            Direction::Down => {
                pos.y = if pos.y + 1 >= height { 0 } else { pos.y + 1 };
            },
        }
    }
}

/// Reversing twice gives the direction back, and no direction is its own
/// reverse.
pub proof fn reversal_is_an_involution(d: Direction)
    ensures
        d.reversed().reversed() == d,
        d.reversed() != d,
{
}

/// Leaving the board through one edge enters it at the opposite edge: a step
/// left from column zero lands in the last column, a step right from the last
/// column lands in column zero, and likewise for rows. The other coordinate
/// never changes, and away from the edges a step moves by exactly one.
pub proof fn steps_wrap_around(pos: Cell, width: usize, height: usize)
    requires
        pos.within(width, height),
    ensures
        pos.x == 0 ==> Direction::Left.stepped(pos, width, height).x == width - 1,
        pos.x > 0 ==> Direction::Left.stepped(pos, width, height).x == pos.x - 1,
        pos.x == width - 1 ==> Direction::Right.stepped(pos, width, height).x == 0,
        pos.x < width - 1 ==> Direction::Right.stepped(pos, width, height).x == pos.x + 1,
        pos.y == 0 ==> Direction::Up.stepped(pos, width, height).y == height - 1,
        pos.y > 0 ==> Direction::Up.stepped(pos, width, height).y == pos.y - 1,
        pos.y == height - 1 ==> Direction::Down.stepped(pos, width, height).y == 0,
        pos.y < height - 1 ==> Direction::Down.stepped(pos, width, height).y == pos.y + 1,
        Direction::Left.stepped(pos, width, height).y == pos.y,
        Direction::Right.stepped(pos, width, height).y == pos.y,
        Direction::Up.stepped(pos, width, height).x == pos.x,
        Direction::Down.stepped(pos, width, height).x == pos.x,
        forall|d: Direction| (#[trigger] d.stepped(pos, width, height)).within(width, height),
{
}

/// A step followed by a step the other way returns to the starting cell.
pub proof fn stepping_back_returns(d: Direction, pos: Cell, width: usize, height: usize)
    requires
        pos.within(width, height),
    ensures
        d.reversed().stepped(d.stepped(pos, width, height), width, height) == pos,
{
}

} // verus!
