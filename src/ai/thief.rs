//! Thief: wanders at random, and at close range chases the player most of
//! the time.

use rand::Rng;
use vstd::prelude::*;

use crate::ai::{lemma_open_directions, open_directions, walkable_directions};
use crate::grid::{dist, Direction, GridPosition};
use crate::maze::MazeMap;
use crate::pathfinder::{first_step_ok, next_direction_toward, reachable};

verus! {

/// The Manhattan distance within which the thief may chase the player.
pub const CHASE_THRESHOLD: u64 = 8;

pub open spec fn within_chase(enemy_pos: GridPosition, player_pos: GridPosition) -> bool {
    dist(enemy_pos, player_pos) <= CHASE_THRESHOLD
}

/// The direction at `pick` among `dirs`, counted round, if there is any.
pub open spec fn pick_of(dirs: Seq<Direction>, pick: int) -> Option<Direction> {
    if dirs.len() == 0 {
        None
    } else {
        Some(dirs[pick % dirs.len() as int])
    }
}

/// Relies on `rand::thread_rng` and `Rng::gen_ratio(7, 10)`: a draw that is
/// true seven times in ten. Nothing is promised of any one draw.
#[verifier::external_body]
fn chase_roll() -> (r: bool) {
    rand::thread_rng().gen_ratio(7, 10)
}

/// Relies on `rand::thread_rng` and `Rng::gen_range(0..n)`: a number below
/// `n`, drawn uniformly; the range must not be empty.
#[verifier::external_body]
fn random_below(n: usize) -> (r: usize)
    requires
        n > 0,
    ensures
        r < n,
{
    rand::thread_rng().gen_range(0..n)
}

fn within_chase_range(enemy_pos: GridPosition, player_pos: GridPosition) -> (r: bool)
    ensures
        r == within_chase(enemy_pos, player_pos),
{
    let dx: i64 = enemy_pos.x as i64 - player_pos.x as i64;
    let dy: i64 = enemy_pos.y as i64 - player_pos.y as i64;
    let ax: i64 = if dx < 0 { -dx } else { dx };
    let ay: i64 = if dy < 0 { -dy } else { dy };
    ax + ay <= CHASE_THRESHOLD as i64
}

/// The thief's decision once the dice are cast: with `chase` set and the
/// player within range, the first step of a shortest path to the player;
/// otherwise the open direction at `pick` (counted round), or `None` when
/// every direction is blocked.
pub fn erratic_direction(
    enemy_pos: GridPosition,
    player_pos: GridPosition,
    maze: &MazeMap,
    chase: bool,
    pick: usize,
) -> (r: Option<Direction>)
    requires
        maze.wf(),
    ensures
        within_chase(enemy_pos, player_pos) && chase ==> first_step_ok(maze, enemy_pos, player_pos, r)
            && (r is None <==> (enemy_pos == player_pos || !reachable(maze, enemy_pos, player_pos))),
        !(within_chase(enemy_pos, player_pos) && chase) ==> r == pick_of(
            open_directions(maze, enemy_pos),
            pick as int,
        ),
{
    if chase && within_chase_range(enemy_pos, player_pos) {
        return next_direction_toward(enemy_pos, player_pos, maze);
    }
    open_direction_at(enemy_pos, maze, pick)
}

/// The open direction at `pick` among those in which an enemy at `pos` may
/// step (up, down, left, right, counted round), or `None` when every
/// direction is blocked.
pub fn open_direction_at(pos: GridPosition, maze: &MazeMap, pick: usize) -> (r: Option<Direction>)
    requires
        maze.wf(),
    ensures
        r == pick_of(open_directions(maze, pos), pick as int),
{
    let valid = walkable_directions(pos, maze);
    if valid.len() == 0 {
        None
    } else {
        Some(valid[pick % valid.len()])
    }
}

/// A direction drawn uniformly among those in which the enemy may step.
pub fn random_direction(pos: GridPosition, maze: &MazeMap) -> (r: Option<Direction>)
    requires
        maze.wf(),
    ensures
        r is None <==> open_directions(maze, pos).len() == 0,
        r matches Some(d) ==> open_directions(maze, pos).contains(d),
{
    let n = walkable_directions(pos, maze).len();
    if n == 0 {
        return None;
    }
    let idx = random_below(n);
    let r = open_direction_at(pos, maze, idx);
    proof {
        let ds = open_directions(maze, pos);
        assert(n == ds.len());
        assert(idx as int % ds.len() as int == idx as int) by (nonlinear_arith)
            requires
                0 <= idx < ds.len(),
        ;
        assert(ds.contains(ds[idx as int]));
    }
    r
}

/// The thief's move: within range of the player it chases seven times in
/// ten; otherwise it steps in a random open direction.
pub fn choose_direction(
    enemy_pos: GridPosition,
    player_pos: GridPosition,
    _player_dir: Direction,
    maze: &MazeMap,
) -> (r: Option<Direction>)
    requires
        maze.wf(),
    ensures
        r matches Some(d) ==> open_directions(maze, enemy_pos).contains(d),
        !within_chase(enemy_pos, player_pos) ==> (r is None <==> open_directions(
            maze,
            enemy_pos,
        ).len() == 0),
        r is None ==> open_directions(maze, enemy_pos).len() == 0 || (within_chase(
            enemy_pos,
            player_pos,
        ) && (enemy_pos == player_pos || !reachable(maze, enemy_pos, player_pos))),
{
    let chase = if within_chase_range(enemy_pos, player_pos) {
        chase_roll()
    } else {
        false
    };
    let n = walkable_directions(enemy_pos, maze).len();
    let pick = if n > 0 {
        random_below(n)
    } else {
        0
    };
    let r = erratic_direction(enemy_pos, player_pos, maze, chase, pick);
    proof {
        lemma_open_directions(maze, enemy_pos);
        if let Some(d) = r {
            if !(within_chase(enemy_pos, player_pos) && chase) {
                let ds = open_directions(maze, enemy_pos);
                assert(ds[pick as int % ds.len() as int] == d);
            } else {
                crate::pathfinder::lemma_first_step_is_open(maze, enemy_pos, player_pos, d);
            }
        }
    }
    r
}

} // verus!
