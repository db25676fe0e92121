//! Inquisitor: aims four cells ahead of the player along the way the player
//! faces, or at the player when that cell cannot be walked on.

use vstd::prelude::*;

use crate::grid::{cell_ahead, Direction, GridPosition};
use crate::maze::MazeMap;
use crate::pathfinder::{first_step_ok, next_direction_toward, reachable};

verus! {

/// How far ahead of the player the inquisitor aims.
pub const AMBUSH_DISTANCE: i32 = 4;

/// The cell the inquisitor aims at: four cells ahead of the player if an
/// enemy can walk there, else the player's own cell.
pub open spec fn ambush_target_spec(maze: &MazeMap, player_pos: GridPosition, player_dir: Direction) -> GridPosition {
    let ax = player_pos.x + 4 * player_dir.dx();
    let ay = player_pos.y + 4 * player_dir.dy();
    if maze.enemy_walkable_spec(ax, ay) {
        GridPosition { x: ax as i32, y: ay as i32 }
    } else {
        player_pos
    }
}

/// The cell the inquisitor aims at.
pub fn ambush_target(player_pos: GridPosition, player_dir: Direction, maze: &MazeMap) -> (r: GridPosition)
    requires
        maze.wf(),
    ensures
        r == ambush_target_spec(maze, player_pos, player_dir),
{
    match cell_ahead(player_pos, player_dir, AMBUSH_DISTANCE) {
        Some(ahead) => {
            if maze.is_walkable_for_enemy(ahead) {
                ahead
            } else {
                player_pos
            }
        },
        None => player_pos,
    }
}

/// The first step of a shortest path from the inquisitor to its ambush target.
pub fn choose_direction(
    enemy_pos: GridPosition,
    player_pos: GridPosition,
    player_dir: Direction,
    maze: &MazeMap,
) -> (r: Option<Direction>)
    requires
        maze.wf(),
    ensures
        first_step_ok(maze, enemy_pos, ambush_target_spec(maze, player_pos, player_dir), r),
        r is None <==> ({
            let t = ambush_target_spec(maze, player_pos, player_dir);
            enemy_pos == t || !reachable(maze, enemy_pos, t)
        }),
{
    let target = ambush_target(player_pos, player_dir, maze);
    next_direction_toward(enemy_pos, target, maze)
}

/// When the cell four ahead of the player is off the map or blocked, the
/// inquisitor aims at the player's own cell, and its step is the first step
/// of a shortest path to the player.
pub proof fn lemma_ambush_falls_back(
    maze: &MazeMap,
    enemy_pos: GridPosition,
    player_pos: GridPosition,
    player_dir: Direction,
    r: Option<Direction>,
)
    requires
        !maze.enemy_walkable_spec(player_pos.x + 4 * player_dir.dx(), player_pos.y + 4 * player_dir.dy()),
        first_step_ok(maze, enemy_pos, ambush_target_spec(maze, player_pos, player_dir), r),
    ensures
        ambush_target_spec(maze, player_pos, player_dir) == player_pos,
        first_step_ok(maze, enemy_pos, player_pos, r),
{
}

} // verus!
