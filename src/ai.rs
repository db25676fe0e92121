//! Enemy targeting policies. Each enemy kind picks a target cell and steps
//! along a shortest path to it, except the thief, which also wanders.

pub mod brute;
pub mod inquisitor;
pub mod soldier;
pub mod thief;

use vstd::prelude::*;

use crate::grid::{Direction, GridPosition};
use crate::maze::MazeMap;

verus! {

/// Whether an enemy at `pos` may step in direction `d`.
pub open spec fn open_toward(maze: &MazeMap, pos: GridPosition, d: Direction) -> bool {
    maze.enemy_walkable_spec(pos.x + d.dx(), pos.y + d.dy())
}

pub open spec fn if_open(maze: &MazeMap, pos: GridPosition, d: Direction) -> Seq<Direction> {
    if open_toward(maze, pos, d) {
        seq![d]
    } else {
        seq![]
    }
}

/// The directions in which an enemy at `pos` may step, in the order up, down, left, right.
pub open spec fn open_directions(maze: &MazeMap, pos: GridPosition) -> Seq<Direction> {
    if_open(maze, pos, Direction::Up) + if_open(maze, pos, Direction::Down) + if_open(
        maze,
        pos,
        Direction::Left,
    ) + if_open(maze, pos, Direction::Right)
}

/// Whether an enemy at `pos` may step in direction `d`.
fn can_step(maze: &MazeMap, pos: GridPosition, d: Direction) -> (r: bool)
    requires
        maze.wf(),
    ensures
        r == open_toward(maze, pos, d),
{
    match crate::grid::cell_ahead(pos, d, 1) {
        Some(c) => maze.is_walkable_for_enemy(c),
        None => {
            proof {
                let x = pos.x + d.dx();
                let y = pos.y + d.dy();
                if 0 <= y < maze.tiles@.len() {
                    assert(maze.tiles@[y]@.len() == maze.width);
                }
            }
            false
        },
    }
}

/// The directions in which an enemy at `pos` may step, in the order up, down, left, right.
pub fn walkable_directions(pos: GridPosition, maze: &MazeMap) -> (r: Vec<Direction>)
    requires
        maze.wf(),
    ensures
        r@ == open_directions(maze, pos),
{
    let mut r: Vec<Direction> = Vec::new();
    if can_step(maze, pos, Direction::Up) {
        r.push(Direction::Up);
    }
    assert(r@ =~= if_open(maze, pos, Direction::Up));
    if can_step(maze, pos, Direction::Down) {
        r.push(Direction::Down);
    }
    assert(r@ =~= if_open(maze, pos, Direction::Up) + if_open(maze, pos, Direction::Down));
    if can_step(maze, pos, Direction::Left) {
        r.push(Direction::Left);
    }
    assert(r@ =~= if_open(maze, pos, Direction::Up) + if_open(maze, pos, Direction::Down) + if_open(
        maze,
        pos,
        Direction::Left,
    ));
    if can_step(maze, pos, Direction::Right) {
        r.push(Direction::Right);
    }
    assert(r@ =~= open_directions(maze, pos));
    r
}

/// The directions in which an enemy may step are exactly those listed, each once.
pub proof fn lemma_open_directions(maze: &MazeMap, pos: GridPosition)
    ensures
        forall|d: Direction| #[trigger] open_directions(maze, pos).contains(d) <==> open_toward(maze, pos, d),
        forall|k: int|
            0 <= k < open_directions(maze, pos).len() ==> open_toward(maze, pos, #[trigger] open_directions(maze, pos)[k]),
        open_directions(maze, pos).len() <= 4,
{
    let a = if_open(maze, pos, Direction::Up);
    let b = if_open(maze, pos, Direction::Down);
    let c = if_open(maze, pos, Direction::Left);
    let e = if_open(maze, pos, Direction::Right);
    let s = open_directions(maze, pos);
    assert(s == a + b + c + e);
    assert forall|k: int| 0 <= k < s.len() implies open_toward(maze, pos, #[trigger] s[k]) by {
        if k < a.len() {
            assert(s[k] == a[k]);
        } else if k < a.len() + b.len() {
            assert(s[k] == b[k - a.len()]);
        } else if k < a.len() + b.len() + c.len() {
            assert(s[k] == c[k - a.len() - b.len()]);
        } else {
            assert(s[k] == e[k - a.len() - b.len() - c.len()]);
        }
    }
    assert forall|d: Direction| #[trigger] s.contains(d) <==> open_toward(maze, pos, d) by {
        if open_toward(maze, pos, d) {
            match d {
                Direction::Up => assert(s[0] == d),
                Direction::Down => assert(s[a.len() as int] == d),
                Direction::Left => assert(s[(a.len() + b.len()) as int] == d),
                Direction::Right => assert(s[(a.len() + b.len() + c.len()) as int] == d),
            }
        }
    }
}

} // verus!
