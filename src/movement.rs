//! Tile-to-tile movement: a requested direction is checked against the
//! maze and committed at once to the logical cell, while a visual
//! interpolation runs towards it. At most one move is in flight per entity.

use vstd::prelude::*;

use crate::grid::{cell_ahead, dist, Direction, GridPosition};
use crate::maze::MazeMap;

verus! {

/// Interpolation progress that means the move is complete.
pub const PROGRESS_FULL: u32 = 1_000_000;

/// Visual interpolation between two cells: `t` is the progress in
/// millionths of the way from `from` to `to`.
#[derive(Debug, Clone, Copy, PartialEq, Eq, Structural)]
pub struct MoveLerp {
    pub from: GridPosition,
    pub to: GridPosition,
    pub t: u32,
}

/// Whose walkability rule a move follows.
#[derive(Debug, Clone, Copy, PartialEq, Eq, Structural)]
pub enum Walker {
    Player,
    Enemy,
}

/// The movement state of an entity: its logical cell, the direction it has
/// been asked to move in, the cell it left in the move now in flight, and
/// the interpolation of that move.
#[derive(Debug, Clone, Copy)]
pub struct Mover {
    pub pos: GridPosition,
    pub direction: Option<Direction>,
    pub previous: Option<GridPosition>,
    pub lerp: Option<MoveLerp>,
}

/// Whether `walker` may enter the cell (x, y).
pub open spec fn may_enter(maze: &MazeMap, walker: Walker, x: int, y: int) -> bool {
    match walker {
        Walker::Player => maze.player_walkable_spec(x, y),
        Walker::Enemy => maze.enemy_walkable_spec(x, y),
    }
}

/// The state after a request to move in direction `d`.
pub open spec fn requested(m: Mover, d: Direction) -> Mover {
    Mover { direction: Some(d), ..m }
}

/// The state after a move is validated: nothing happens while a move is in
/// flight or none is asked for; a move into a cell the walker may enter is
/// committed at once; any other request is dropped.
pub open spec fn validated(m: Mover, maze: &MazeMap, walker: Walker) -> Mover {
    if m.lerp is Some {
        m
    } else {
        match m.direction {
            None => m,
            Some(d) => {
                let tx = m.pos.x + d.dx();
                let ty = m.pos.y + d.dy();
                if may_enter(maze, walker, tx, ty) {
                    let to = GridPosition { x: tx as i32, y: ty as i32 };
                    Mover {
                        pos: to,
                        direction: m.direction,
                        previous: Some(m.pos),
                        lerp: Some(MoveLerp { from: m.pos, to, t: 0 }),
                    }
                } else {
                    Mover { direction: None, ..m }
                }
            },
        }
    }
}

/// The state after the interpolation advances by `step` millionths: the
/// progress is capped at the full way, and a completed move ends.
pub open spec fn advanced(m: Mover, step: int) -> Mover {
    match m.lerp {
        None => m,
        Some(l) => {
            if l.t + step >= PROGRESS_FULL {
                Mover { direction: None, previous: None, lerp: None, ..m }
            } else {
                Mover { lerp: Some(MoveLerp { t: (l.t + step) as u32, ..l }), ..m }
            }
        },
    }
}

impl Mover {
    /// An entity standing still at `pos`.
    pub fn at(pos: GridPosition) -> (r: Mover)
        ensures
            r.pos == pos,
            r.direction is None,
            r.previous is None,
            r.lerp is None,
    {
        Mover { pos, direction: None, previous: None, lerp: None }
    }

    /// Asks the entity to move in direction `d`.
    pub fn request(&mut self, d: Direction)
        ensures
            *final(self) == requested(*old(self), d),
    {
        self.direction = Some(d);
    }

    /// Checks the requested move against the maze and commits it, or drops it.
    pub fn validate_move(&mut self, maze: &MazeMap, walker: Walker)
        requires
            maze.wf(),
        ensures
            *final(self) == validated(*old(self), maze, walker),
    {
        if self.lerp.is_some() {
            return;
        }
        let d = match self.direction {
            None => {
                return;
            },
            Some(d) => d,
        };
        let target = cell_ahead(self.pos, d, 1);
        let walkable = match target {
            Some(c) => match walker {
                Walker::Player => maze.is_walkable_for_player(c),
                Walker::Enemy => maze.is_walkable_for_enemy(c),
            },
            None => {
                proof {
                    let y = self.pos.y + d.dy();
                    if 0 <= y < maze.tiles@.len() {
                        assert(maze.tiles@[y]@.len() == maze.width);
                    }
                }
                false
            },
        };
        if !walkable {
            self.direction = None;
            return;
        }
        let to = target.unwrap();
        let from = self.pos;
        self.previous = Some(from);
        self.pos = to;
        self.lerp = Some(MoveLerp { from, to, t: 0 });
    }

    /// Advances the interpolation by `step` millionths of the way, ending
    /// the move once it is complete.
    pub fn advance(&mut self, step: u32)
        ensures
            *final(self) == advanced(*old(self), step as int),
    {
        if let Some(l) = self.lerp {
            if l.t as u64 + step as u64 >= PROGRESS_FULL as u64 {
                self.lerp = None;
                self.direction = None;
                self.previous = None;
            } else {
                self.lerp = Some(MoveLerp { t: l.t + step, ..l });
            }
        }
    }
}

/// While a move is in flight, a new request changes nothing on validation,
/// and no advance of the interpolation moves the logical cell.
pub proof fn lemma_one_move_in_flight(m: Mover, maze: &MazeMap, walker: Walker, d: Direction, step: int)
    requires
        m.lerp is Some,
    ensures
        validated(requested(m, d), maze, walker).pos == m.pos,
        validated(requested(m, d), maze, walker).lerp == m.lerp,
        advanced(validated(requested(m, d), maze, walker), step).pos == m.pos,
{
}

/// A request towards a cell the walker may not enter leaves the entity
/// where it is, and drops the request.
pub proof fn lemma_wall_rejects(m: Mover, maze: &MazeMap, walker: Walker, d: Direction)
    requires
        m.lerp is None,
        !may_enter(maze, walker, m.pos.x + d.dx(), m.pos.y + d.dy()),
    ensures
        validated(requested(m, d), maze, walker).pos == m.pos,
        validated(requested(m, d), maze, walker).direction is None,
        validated(requested(m, d), maze, walker).lerp is None,
{
}


/// Validation moves an entity by at most one cell, and only onto a cell its
/// walker may enter; advancing the interpolation never moves it.
pub proof fn lemma_never_skips_a_cell(m: Mover, maze: &MazeMap, walker: Walker, step: int)
    requires
        maze.wf(),
    ensures
        dist(validated(m, maze, walker).pos, m.pos) <= 1,
        validated(m, maze, walker).pos != m.pos ==> may_enter(
            maze,
            walker,
            validated(m, maze, walker).pos.x as int,
            validated(m, maze, walker).pos.y as int,
        ),
        advanced(m, step).pos == m.pos,
{
    if m.lerp is None && m.direction is Some {
        let d = m.direction->0;
        let tx = m.pos.x + d.dx();
        let ty = m.pos.y + d.dy();
        if may_enter(maze, walker, tx, ty) {
            assert(0 <= ty < maze.height);
            assert(maze.tiles@[ty]@.len() == maze.width);
            assert(0 <= tx < maze.width);
        }
    }
}

} // verus!
