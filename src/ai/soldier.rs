//! Soldier: heads straight for the player along a shortest path. The fastest enemy.

use vstd::prelude::*;

use crate::grid::{Direction, GridPosition};
use crate::maze::MazeMap;
use crate::pathfinder::{first_step_ok, next_direction_toward, reachable};

verus! {

/// The first step of a shortest path from the enemy to the player.
pub fn choose_direction(
    enemy_pos: GridPosition,
    player_pos: GridPosition,
    _player_dir: Direction,
    maze: &MazeMap,
) -> (r: Option<Direction>)
    requires
        maze.wf(),
    ensures
        first_step_ok(maze, enemy_pos, player_pos, r),
        r is None <==> (enemy_pos == player_pos || !reachable(maze, enemy_pos, player_pos)),
{
    next_direction_toward(enemy_pos, player_pos, maze)
}

} // verus!
