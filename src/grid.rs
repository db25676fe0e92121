//! Grid cells and the four cardinal directions.

use vstd::prelude::*;

verus! {

/// A cell of the maze grid: column `x`, row `y` (row 0 at the top).
#[derive(Debug, Clone, Copy, PartialEq, Eq, Hash, Structural)]
pub struct GridPosition {
    pub x: i32,
    pub y: i32,
}

/// Cardinal direction for movement. There is no diagonal movement.
#[derive(Debug, Clone, Copy, PartialEq, Eq, Hash, Structural)]
pub enum Direction {
    Up,
    Down,
    Left,
    Right,
}

impl Direction {
    /// Column offset of one step in this direction.
    pub open spec fn dx(self) -> int {
        match self {
            Direction::Left => -1,
            Direction::Right => 1,
            _ => 0,
        }
    }

    /// Row offset of one step in this direction (rows grow downwards).
    pub open spec fn dy(self) -> int {
        match self {
            Direction::Up => -1,
            Direction::Down => 1,
            _ => 0,
        }
    }

    pub open spec fn opposite_spec(self) -> Direction {
        match self {
            Direction::Up => Direction::Down,
            Direction::Down => Direction::Up,
            Direction::Left => Direction::Right,
            Direction::Right => Direction::Left,
        }
    }

    /// Grid offset for this direction.
    pub fn delta(&self) -> (r: (i32, i32))
        ensures
            r.0 == self.dx(),
            r.1 == self.dy(),
    {
        match self {
            Direction::Up => (0, -1),
            Direction::Down => (0, 1),
            Direction::Left => (-1, 0),
            Direction::Right => (1, 0),
        }
    }

    pub fn opposite(&self) -> (r: Direction)
        ensures
            r == self.opposite_spec(),
            r.dx() == -self.dx(),
            r.dy() == -self.dy(),
    {
        match self {
            Direction::Up => Direction::Down,
            Direction::Down => Direction::Up,
            Direction::Left => Direction::Right,
            Direction::Right => Direction::Left,
        }
    }
}

/// The four directions in the order in which neighbours are enumerated.
pub open spec fn direction_order() -> Seq<Direction> {
    seq![Direction::Up, Direction::Down, Direction::Left, Direction::Right]
}

pub open spec fn abs_int(v: int) -> int {
    if v < 0 {
        -v
    } else {
        v
    }
}

/// Manhattan distance between two cells.
pub open spec fn dist(a: GridPosition, b: GridPosition) -> int {
    abs_int(a.x - b.x) + abs_int(a.y - b.y)
}

/// Whether `b` is one of the four cells next to `a`.
pub open spec fn adjacent(a: GridPosition, b: GridPosition) -> bool {
    dist(a, b) == 1
}

/// Whether `b` is the cell `k` steps from `a` in direction `d`.
pub open spec fn is_ahead(a: GridPosition, d: Direction, k: int, b: GridPosition) -> bool {
    b.x == a.x + k * d.dx() && b.y == a.y + k * d.dy()
}

/// The cell `k` steps from `pos` in direction `dir`, if its coordinates fit.
pub fn cell_ahead(pos: GridPosition, dir: Direction, k: i32) -> (r: Option<GridPosition>)
    requires
        0 <= k <= 1024,
    ensures
        match r {
            Some(c) => is_ahead(pos, dir, k as int, c),
            None => !(i32::MIN <= pos.x + k * dir.dx() <= i32::MAX && i32::MIN <= pos.y + k
                * dir.dy() <= i32::MAX),
        },
{
    let (dx, dy) = dir.delta();
    assert(-1024 <= (dx as i64) * (k as i64) <= 1024 && (dx as i64) * (k as i64) == (k as int)
        * dir.dx()) by (nonlinear_arith)
        requires
            -1 <= dx <= 1,
            dx == dir.dx(),
            0 <= k <= 1024,
    ;
    assert(-1024 <= (dy as i64) * (k as i64) <= 1024 && (dy as i64) * (k as i64) == (k as int)
        * dir.dy()) by (nonlinear_arith)
        requires
            -1 <= dy <= 1,
            dy == dir.dy(),
            0 <= k <= 1024,
    ;
    let nx: i64 = pos.x as i64 + (dx as i64) * (k as i64);
    let ny: i64 = pos.y as i64 + (dy as i64) * (k as i64);
    if nx < i32::MIN as i64 || nx > i32::MAX as i64 || ny < i32::MIN as i64 || ny > i32::MAX as i64 {
        None
    } else {
        Some(GridPosition { x: nx as i32, y: ny as i32 })
    }
}

} // verus!
