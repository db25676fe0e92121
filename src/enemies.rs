//! Enemies: their records, the per-tick choice of direction, collision with
//! the player, and what follows a death.

use vstd::prelude::*;

use crate::ai::{brute, inquisitor, soldier, thief};
use crate::ai::inquisitor::ambush_target_spec;
use crate::ai::open_directions;
use crate::combat::{first_farthest, frightened_direction};
use crate::grid::{Direction, GridPosition};
use crate::maze::MazeMap;
use crate::movement::Mover;
use crate::pathfinder::first_step_ok;
use crate::player::Player;
use crate::resources::Lives;

verus! {

/// The kind of enemy, which decides how it picks its target.
#[derive(Debug, Clone, Copy, PartialEq, Eq, Structural)]
pub enum EnemyKind {
    Soldier,
    Inquisitor,
    Thief,
    Brute,
}

/// What an enemy is doing; the modes exclude one another.
#[derive(Debug, Clone, Copy, PartialEq, Eq, Structural)]
pub enum EnemyMode {
    /// Hunting the player.
    Roaming,
    /// Waiting in the pen for release.
    InPen,
    /// Fleeing from an armed player.
    Frightened,
    /// Killed, waiting to return to the pen.
    Respawning,
}

/// An enemy: its kind, mode, movement state, facing and spawn cell.
#[derive(Debug, Clone, Copy)]
pub struct Enemy {
    pub kind: EnemyKind,
    pub mode: EnemyMode,
    pub mover: Mover,
    pub facing: Direction,
    pub spawn: GridPosition,
}

/// A collision: the same cell, or the two swapped cells in this tick.
pub open spec fn collides_spec(player: Mover, enemy: Mover) -> bool {
    player.pos == enemy.pos || (player.previous == Some(enemy.pos) && enemy.previous == Some(player.pos))
}

/// Whether the player and an enemy collide: they share a cell, or each left
/// the cell the other now holds (a head-on pass within one tick).
pub fn collides(player: &Mover, enemy: &Mover) -> (r: bool)
    ensures
        r == collides_spec(*player, *enemy),
{
    let same_tile = player.pos == enemy.pos;
    let crossed = match (player.previous, enemy.previous) {
        (Some(pp), Some(ep)) => pp == enemy.pos && ep == player.pos,
        _ => false,
    };
    same_tile || crossed
}

/// Whether a roaming enemy of `enemies` collides with the player.
pub open spec fn caught(player: Mover, enemies: Seq<Enemy>) -> bool {
    exists|k: int|
        0 <= k < enemies.len() && (#[trigger] enemies[k]).mode == EnemyMode::Roaming && collides_spec(
            player,
            enemies[k].mover,
        )
}

/// Checks the player against every roaming enemy. On a collision a life is
/// lost (none below zero) and a death is counted (the count stops at its
/// largest value).
pub fn enemy_player_collision(player: &Mover, enemies: &Vec<Enemy>, lives: &mut Lives, deaths: &mut u32) -> (r: bool)
    ensures
        r == caught(*player, enemies@),
        r ==> final(lives).0 == if old(lives).0 > 0 { old(lives).0 - 1 } else { 0 },
        r ==> *final(deaths) == if *old(deaths) < u32::MAX { *old(deaths) + 1 } else { *old(deaths) as int },
        !r ==> *final(lives) == *old(lives) && *final(deaths) == *old(deaths),
{
    let mut k: usize = 0;
    while k < enemies.len()
        invariant
            0 <= k <= enemies@.len(),
            forall|j: int|
                0 <= j < k ==> !((#[trigger] enemies@[j]).mode == EnemyMode::Roaming && collides_spec(
                    *player,
                    enemies@[j].mover,
                )),
            *lives == *old(lives),
            *deaths == *old(deaths),
        decreases enemies@.len() - k,
    {
        let e = &enemies[k];
        if e.mode == EnemyMode::Roaming && collides(player, &e.mover) {
            if lives.0 > 0 {
                lives.0 = lives.0 - 1;
            }
            if *deaths < u32::MAX {
                *deaths = *deaths + 1;
            }
            return true;
        }
        k += 1;
    }
    false
}

/// Whether `r` is a direction that the policy of enemy `e` may choose.
pub open spec fn choice_ok(
    e: Enemy,
    player_pos: GridPosition,
    player_dir: Direction,
    maze: &MazeMap,
    r: Option<Direction>,
) -> bool {
    if e.mode == EnemyMode::Frightened {
        let dirs = open_directions(maze, e.mover.pos);
        &&& (r is None <==> dirs.len() == 0)
        &&& (r matches Some(d) ==> exists|k: int|
            first_farthest(dirs, e.mover.pos, player_pos, k) && #[trigger] dirs[k] == d)
    } else {
        match e.kind {
            EnemyKind::Soldier | EnemyKind::Brute => first_step_ok(maze, e.mover.pos, player_pos, r),
            EnemyKind::Inquisitor => first_step_ok(
                maze,
                e.mover.pos,
                ambush_target_spec(maze, player_pos, player_dir),
                r,
            ),
            EnemyKind::Thief => {
                &&& (r matches Some(d) ==> open_directions(maze, e.mover.pos).contains(d))
                &&& (r is None ==> open_directions(maze, e.mover.pos).len() == 0 || (
                thief::within_chase(e.mover.pos, player_pos) && first_step_ok(
                    maze,
                    e.mover.pos,
                    player_pos,
                    None,
                )))
            },
        }
    }
}

/// Whether enemy `e` picks a direction this tick: it roams or flees, and
/// is neither moving nor already asked to move.
pub open spec fn deciding(e: Enemy) -> bool {
    &&& (e.mode == EnemyMode::Roaming || e.mode == EnemyMode::Frightened)
    &&& e.mover.lerp is None
    &&& e.mover.direction is None
}

/// The direction that the policy of enemy `e` picks.
pub fn choose_for(e: &Enemy, player_pos: GridPosition, player_dir: Direction, maze: &MazeMap) -> (r: Option<Direction>)
    requires
        maze.wf(),
    ensures
        choice_ok(*e, player_pos, player_dir, maze, r),
{
    if e.mode == EnemyMode::Frightened {
        return frightened_direction(e.mover.pos, player_pos, maze);
    }
    match e.kind {
        EnemyKind::Soldier => soldier::choose_direction(e.mover.pos, player_pos, player_dir, maze),
        EnemyKind::Inquisitor => inquisitor::choose_direction(e.mover.pos, player_pos, player_dir, maze),
        EnemyKind::Thief => thief::choose_direction(e.mover.pos, player_pos, player_dir, maze),
        EnemyKind::Brute => brute::choose_direction(e.mover.pos, player_pos, player_dir, maze),
    }
}

/// How a tick's decision changes enemy `old` into `new`.
pub open spec fn decided(old: Enemy, new: Enemy, player_pos: GridPosition, player_dir: Direction, maze: &MazeMap) -> bool {
    if deciding(old) {
        &&& choice_ok(old, player_pos, player_dir, maze, new.mover.direction)
        &&& new.kind == old.kind && new.mode == old.mode && new.spawn == old.spawn
        &&& new.mover.pos == old.mover.pos && new.mover.previous == old.mover.previous
        &&& new.mover.lerp == old.mover.lerp
        &&& new.facing == match new.mover.direction {
            Some(d) => d,
            None => old.facing,
        }
    } else {
        new == old
    }
}

/// Lets every enemy that is free to move pick a direction: fleeing when
/// frightened, else by its kind's policy. Enemies in the pen, respawning,
/// moving or already asked to move are left alone.
pub fn enemy_ai(enemies: &mut Vec<Enemy>, player_pos: GridPosition, player_dir: Direction, maze: &MazeMap)
    requires
        maze.wf(),
    ensures
        final(enemies)@.len() == old(enemies)@.len(),
        forall|k: int|
            0 <= k < old(enemies)@.len() ==> decided(
                #[trigger] old(enemies)@[k],
                final(enemies)@[k],
                player_pos,
                player_dir,
                maze,
            ),
{
    let mut k: usize = 0;
    while k < enemies.len()
        invariant
            0 <= k <= enemies@.len(),
            enemies@.len() == old(enemies)@.len(),
            maze.wf(),
            forall|j: int|
                0 <= j < k ==> decided(#[trigger] old(enemies)@[j], enemies@[j], player_pos, player_dir, maze),
            forall|j: int| k <= j < enemies@.len() ==> #[trigger] enemies@[j] == old(enemies)@[j],
        decreases enemies@.len() - k,
    {
        let e = enemies[k];
        let free = (e.mode == EnemyMode::Roaming || e.mode == EnemyMode::Frightened) && e.mover.lerp.is_none()
            && e.mover.direction.is_none();
        if free {
            let choice = choose_for(&e, player_pos, player_dir, maze);
            let mut n = e;
            if let Some(d) = choice {
                n.facing = d;
                n.mover.direction = Some(d);
            }
            enemies.set(k, n);
        }
        k += 1;
    }
}

/// A player and an enemy on the same cell collide, wherever they came from.
pub proof fn lemma_same_tile_collides(player: Mover, enemy: Mover)
    requires
        player.pos == enemy.pos,
    ensures
        collides_spec(player, enemy),
{
}

/// A player and an enemy that swapped cells within one tick collide, though
/// their cells differ.
pub proof fn lemma_swap_collides(player: Mover, enemy: Mover)
    requires
        player.previous == Some(enemy.pos),
        enemy.previous == Some(player.pos),
    ensures
        collides_spec(player, enemy),
{
}

/// A roaming enemy on the player's cell catches the player, whatever cells
/// either of them left this tick.
pub proof fn lemma_same_tile_is_caught(player: Mover, enemies: Seq<Enemy>, k: int)
    requires
        0 <= k < enemies.len(),
        enemies[k].mode == EnemyMode::Roaming,
        enemies[k].mover.pos == player.pos,
    ensures
        caught(player, enemies),
{
    assert(collides_spec(player, enemies[k].mover));
}

/// The kind of the enemy at spawn index `i`: soldier, inquisitor, thief,
/// brute, and round again.
pub open spec fn kind_for_spawn(i: int) -> EnemyKind {
    if i % 4 == 0 {
        EnemyKind::Soldier
    } else if i % 4 == 1 {
        EnemyKind::Inquisitor
    } else if i % 4 == 2 {
        EnemyKind::Thief
    } else {
        EnemyKind::Brute
    }
}

/// An enemy freshly placed in the pen at `spawn`, at rest and facing down.
pub open spec fn fresh_enemy(e: Enemy, kind: EnemyKind, spawn: GridPosition) -> bool {
    &&& e.kind == kind
    &&& e.mode == EnemyMode::InPen
    &&& e.spawn == spawn
    &&& e.facing == Direction::Down
    &&& e.mover.pos == spawn
    &&& e.mover.direction is None
    &&& e.mover.previous is None
    &&& e.mover.lerp is None
}

/// One enemy for each enemy spawn of the maze, in the pen, with kinds
/// assigned round the four in spawn order.
pub fn spawn_enemies(maze: &MazeMap) -> (r: Vec<Enemy>)
    ensures
        r@.len() == maze.enemy_spawns@.len(),
        forall|i: int|
            0 <= i < r@.len() ==> fresh_enemy(#[trigger] r@[i], kind_for_spawn(i), maze.enemy_spawns@[i]),
{
    let kinds = [EnemyKind::Soldier, EnemyKind::Inquisitor, EnemyKind::Thief, EnemyKind::Brute];
    let mut r: Vec<Enemy> = Vec::new();
    let mut i: usize = 0;
    while i < maze.enemy_spawns.len()
        invariant
            0 <= i <= maze.enemy_spawns@.len(),
            r@.len() == i,
            kinds@ == seq![EnemyKind::Soldier, EnemyKind::Inquisitor, EnemyKind::Thief, EnemyKind::Brute],
            forall|j: int|
                0 <= j < i ==> fresh_enemy(#[trigger] r@[j], kind_for_spawn(j), maze.enemy_spawns@[j]),
        decreases maze.enemy_spawns@.len() - i,
    {
        let spawn = maze.enemy_spawns[i];
        let kind = kinds[i % 4];
        r.push(
            Enemy { kind, mode: EnemyMode::InPen, mover: Mover::at(spawn), facing: Direction::Down, spawn },
        );
        i += 1;
    }
    r
}

/// Releases the first enemy waiting in the pen, if any.
pub fn pen_release(enemies: &mut Vec<Enemy>)
    ensures
        final(enemies)@.len() == old(enemies)@.len(),
        (forall|k: int| 0 <= k < old(enemies)@.len() ==> (#[trigger] old(enemies)@[k]).mode != EnemyMode::InPen)
            ==> final(enemies)@ == old(enemies)@,
        forall|k: int|
            0 <= k < old(enemies)@.len() && (#[trigger] old(enemies)@[k]).mode == EnemyMode::InPen && (forall|j: int|
                0 <= j < k ==> (#[trigger] old(enemies)@[j]).mode != EnemyMode::InPen) ==> final(enemies)@
                == old(enemies)@.update(k, Enemy { mode: EnemyMode::Roaming, ..old(enemies)@[k] }),
{
    let mut k: usize = 0;
    while k < enemies.len()
        invariant
            0 <= k <= enemies@.len(),
            enemies@ == old(enemies)@,
            forall|j: int| 0 <= j < k ==> (#[trigger] enemies@[j]).mode != EnemyMode::InPen,
        decreases enemies@.len() - k,
    {
        if enemies[k].mode == EnemyMode::InPen {
            let mut e = enemies[k];
            e.mode = EnemyMode::Roaming;
            enemies.set(k, e);
            proof {
                assert forall|k2: int|
                    0 <= k2 < old(enemies)@.len() && (#[trigger] old(enemies)@[k2]).mode == EnemyMode::InPen
                        && (forall|j: int| 0 <= j < k2 ==> (#[trigger] old(enemies)@[j]).mode != EnemyMode::InPen)
                        implies k2 == k by {
                    if k2 > k {
                        assert(old(enemies)@[k as int].mode != EnemyMode::InPen);
                    }
                }
            }
            return;
        }
        k += 1;
    }
}

/// Enemy `e` sent back to its spawn cell, at rest, in the pen.
pub open spec fn penned(e: Enemy) -> Enemy {
    Enemy {
        mode: EnemyMode::InPen,
        mover: Mover { pos: e.spawn, direction: None, previous: None, lerp: None },
        ..e
    }
}

/// What follows the player's death.
#[derive(Debug, Clone, Copy, PartialEq, Eq, Structural)]
pub enum DeathOutcome {
    /// No lives are left: the game is over and nothing is reset.
    GameOver,
    /// Everyone is back at their spawn and play resumes.
    Resume,
}

/// After a death: with no lives left the game is over; otherwise the player
/// returns to its spawn at rest with no buffered input, and every enemy
/// returns to its spawn, at rest, in the pen.
pub fn handle_player_death(player: &mut Player, enemies: &mut Vec<Enemy>, lives: Lives) -> (r: DeathOutcome)
    ensures
        lives.0 == 0 <==> r == DeathOutcome::GameOver,
        r == DeathOutcome::GameOver ==> *final(player) == *old(player) && final(enemies)@ == old(enemies)@,
        r == DeathOutcome::Resume ==> {
            &&& final(player).spawn == old(player).spawn
            &&& final(player).input is None
            &&& final(player).mover.pos == old(player).spawn
            &&& final(player).mover.direction is None
            &&& final(player).mover.previous is None
            &&& final(player).mover.lerp is None
            &&& final(enemies)@.len() == old(enemies)@.len()
            &&& forall|k: int|
                0 <= k < old(enemies)@.len() ==> #[trigger] final(enemies)@[k] == penned(old(enemies)@[k])
        },
{
    if lives.0 == 0 {
        return DeathOutcome::GameOver;
    }
    player.mover = Mover::at(player.spawn);
    player.input = None;
    let mut k: usize = 0;
    while k < enemies.len()
        invariant
            0 <= k <= enemies@.len(),
            enemies@.len() == old(enemies)@.len(),
            forall|j: int|
                0 <= j < k ==> #[trigger] enemies@[j] == penned(old(enemies)@[j]),
            forall|j: int| k <= j < enemies@.len() ==> #[trigger] enemies@[j] == old(enemies)@[j],
        decreases enemies@.len() - k,
    {
        let mut e = enemies[k];
        e.mode = EnemyMode::InPen;
        e.mover = Mover::at(e.spawn);
        enemies.set(k, e);
        k += 1;
    }
    DeathOutcome::Resume
}

} // verus!
