//! The player: where it starts, how held keys become a buffered direction,
//! and when that direction turns into a move.

use vstd::prelude::*;

use crate::grid::{Direction, GridPosition};
use crate::maze::MazeMap;
use crate::movement::Mover;

verus! {

/// The player: movement state, spawn cell, buffered input and facing.
#[derive(Debug, Clone, Copy)]
pub struct Player {
    pub mover: Mover,
    pub spawn: GridPosition,
    pub input: Option<Direction>,
    pub facing: Direction,
}

/// The player of a maze: at rest on its spawn, facing down, with no input.
pub fn spawn_player(maze: &MazeMap) -> (r: Player)
    ensures
        r.spawn == maze.player_spawn,
        r.mover.pos == maze.player_spawn,
        r.mover.direction is None,
        r.mover.previous is None,
        r.mover.lerp is None,
        r.input is None,
        r.facing == Direction::Down,
{
    Player { mover: Mover::at(maze.player_spawn), spawn: maze.player_spawn, input: None, facing: Direction::Down }
}

/// The buffered direction after a frame in which the given keys are held:
/// up wins over down, down over left, left over right; with no key held the
/// buffer keeps what it had.
pub fn read_input(current: Option<Direction>, up: bool, down: bool, left: bool, right: bool) -> (r: Option<
    Direction,
>)
    ensures
        r == if up {
            Some(Direction::Up)
        } else if down {
            Some(Direction::Down)
        } else if left {
            Some(Direction::Left)
        } else if right {
            Some(Direction::Right)
        } else {
            current
        },
{
    if up {
        Some(Direction::Up)
    } else if down {
        Some(Direction::Down)
    } else if left {
        Some(Direction::Left)
    } else if right {
        Some(Direction::Right)
    } else {
        current
    }
}

/// When the player stands on a tile (no move in flight or asked for), the
/// buffered input becomes the requested move and the player faces it.
pub fn apply_player_direction(player: &mut Player)
    ensures
        (old(player).mover.lerp is None && old(player).mover.direction is None && old(player).input is Some) ==> {
            &&& final(player).mover.direction == old(player).input
            &&& final(player).facing == old(player).input->0
            &&& final(player).mover.pos == old(player).mover.pos
            &&& final(player).mover.previous == old(player).mover.previous
            &&& final(player).mover.lerp == old(player).mover.lerp
            &&& final(player).input == old(player).input
            &&& final(player).spawn == old(player).spawn
        },
        !(old(player).mover.lerp is None && old(player).mover.direction is None && old(player).input is Some)
            ==> *final(player) == *old(player),
{
    if player.mover.lerp.is_none() && player.mover.direction.is_none() {
        if let Some(d) = player.input {
            player.mover.direction = Some(d);
            player.facing = d;
        }
    }
}

} // verus!
