//! Frightened enemies: fleeing from an armed player.

use vstd::prelude::*;

use crate::ai::{lemma_open_directions, open_directions, walkable_directions};
use crate::grid::{abs_int, Direction, GridPosition};
use crate::enemies::{Enemy, EnemyMode};
use crate::maze::MazeMap;

verus! {

/// The Manhattan distance to `player_pos` after one step from `enemy_pos` in direction `d`.
pub open spec fn flee_distance(enemy_pos: GridPosition, d: Direction, player_pos: GridPosition) -> int {
    abs_int(enemy_pos.x + d.dx() - player_pos.x) + abs_int(enemy_pos.y + d.dy() - player_pos.y)
}

/// `dirs[k]` leads farthest from the player, and no direction before it leads as far.
pub open spec fn first_farthest(
    dirs: Seq<Direction>,
    enemy_pos: GridPosition,
    player_pos: GridPosition,
    k: int,
) -> bool {
    &&& 0 <= k < dirs.len()
    &&& forall|j: int|
        0 <= j < dirs.len() ==> flee_distance(enemy_pos, #[trigger] dirs[j], player_pos) <= flee_distance(
            enemy_pos,
            dirs[k],
            player_pos,
        )
    &&& forall|j: int|
        0 <= j < k ==> flee_distance(enemy_pos, #[trigger] dirs[j], player_pos) < flee_distance(
            enemy_pos,
            dirs[k],
            player_pos,
        )
}

fn flee_distance_of(enemy_pos: GridPosition, d: Direction, player_pos: GridPosition) -> (r: u64)
    ensures
        r == flee_distance(enemy_pos, d, player_pos),
{
    let (dx, dy) = d.delta();
    let ex: i64 = enemy_pos.x as i64 + dx as i64 - player_pos.x as i64;
    let ey: i64 = enemy_pos.y as i64 + dy as i64 - player_pos.y as i64;
    let ax: u64 = if ex < 0 { (-ex) as u64 } else { ex as u64 };
    let ay: u64 = if ey < 0 { (-ey) as u64 } else { ey as u64 };
    ax + ay
}

/// For a frightened enemy: the open direction whose step leads farthest from
/// the player by Manhattan distance, the first such in the order up, down,
/// left, right; `None` when every direction is blocked.
pub fn frightened_direction(enemy_pos: GridPosition, player_pos: GridPosition, maze: &MazeMap) -> (r: Option<Direction>)
    requires
        maze.wf(),
    ensures
        r is None <==> open_directions(maze, enemy_pos).len() == 0,
        r matches Some(d) ==> exists|k: int|
            first_farthest(open_directions(maze, enemy_pos), enemy_pos, player_pos, k)
                && #[trigger] open_directions(maze, enemy_pos)[k] == d,
{
    let dirs = walkable_directions(enemy_pos, maze);
    if dirs.len() == 0 {
        return None;
    }
    proof {
        lemma_open_directions(maze, enemy_pos);
    }
    let mut best: usize = 0;
    let mut best_dist: u64 = flee_distance_of(enemy_pos, dirs[0], player_pos);
    let mut i: usize = 1;
    while i < dirs.len()
        invariant
            dirs@ == open_directions(maze, enemy_pos),
            1 <= i <= dirs@.len() <= 4,
            best < i,
            best_dist == flee_distance(enemy_pos, dirs@[best as int], player_pos),
            forall|j: int| 0 <= j < i ==> flee_distance(enemy_pos, #[trigger] dirs@[j], player_pos) <= best_dist,
            forall|j: int| 0 <= j < best ==> flee_distance(enemy_pos, #[trigger] dirs@[j], player_pos) < best_dist,
        decreases dirs@.len() - i,
    {
        let di = flee_distance_of(enemy_pos, dirs[i], player_pos);
        if di > best_dist {
            best = i;
            best_dist = di;
        }
        i += 1;
    }
    assert(first_farthest(dirs@, enemy_pos, player_pos, best as int));
    Some(dirs[best])
}


/// The weapon of a level, which sets the flavour of its kills.
#[derive(Debug, Clone, Copy, PartialEq, Eq, Hash, Structural)]
pub enum WeaponType {
    BrassKnuckles,
    Bat,
    Knife,
    Axe,
    Chainsaw,
}

/// A weapon lying in the maze.
#[derive(Debug, Clone, Copy, PartialEq, Eq, Structural)]
pub struct WeaponPickup {
    pub pos: GridPosition,
    pub weapon: WeaponType,
}

/// The player takes the first weapon lying on its cell: the weapon leaves
/// the maze and every roaming enemy becomes frightened. Returns the weapon
/// taken; with none on the player's cell nothing changes.
pub fn weapon_pickup(player_pos: GridPosition, weapons: &mut Vec<WeaponPickup>, enemies: &mut Vec<Enemy>) -> (r: Option<WeaponType>)
    ensures
        r is None <==> (forall|k: int| 0 <= k < old(weapons)@.len() ==> (#[trigger] old(weapons)@[k]).pos != player_pos),
        r is None ==> final(weapons)@ == old(weapons)@ && final(enemies)@ == old(enemies)@,
        r matches Some(w) ==> exists|k: int|
            0 <= k < old(weapons)@.len() && (#[trigger] old(weapons)@[k]).pos == player_pos
                && old(weapons)@[k].weapon == w
                && (forall|j: int| 0 <= j < k ==> (#[trigger] old(weapons)@[j]).pos != player_pos)
                && final(weapons)@ == old(weapons)@.remove(k),
        r is Some ==> final(enemies)@.len() == old(enemies)@.len() && forall|k: int|
            0 <= k < old(enemies)@.len() ==> #[trigger] final(enemies)@[k] == switched(
                old(enemies)@[k],
                EnemyMode::Roaming,
                EnemyMode::Frightened,
            ),
{
    let mut k: usize = 0;
    while k < weapons.len()
        invariant
            0 <= k <= weapons@.len(),
            weapons@ == old(weapons)@,
            enemies@ == old(enemies)@,
            forall|j: int| 0 <= j < k ==> (#[trigger] weapons@[j]).pos != player_pos,
        decreases weapons@.len() - k,
    {
        if weapons[k].pos == player_pos {
            let taken = weapons.remove(k);
            frighten_enemies(enemies);
            return Some(taken.weapon);
        }
        k += 1;
    }
    None
}

/// Score for each enemy killed.
pub const KILL_SCORE: u64 = 200;

/// Enemy `e` in mode `to` if it is in mode `from`, else unchanged.
pub open spec fn switched(e: Enemy, from: EnemyMode, to: EnemyMode) -> Enemy {
    if e.mode == from {
        Enemy { mode: to, ..e }
    } else {
        e
    }
}

/// Every enemy in mode `from` goes to mode `to`.
fn switch_modes(enemies: &mut Vec<Enemy>, from: EnemyMode, to: EnemyMode)
    ensures
        final(enemies)@.len() == old(enemies)@.len(),
        forall|k: int|
            0 <= k < old(enemies)@.len() ==> #[trigger] final(enemies)@[k] == switched(old(enemies)@[k], from, to),
{
    let mut k: usize = 0;
    while k < enemies.len()
        invariant
            0 <= k <= enemies@.len(),
            enemies@.len() == old(enemies)@.len(),
            forall|j: int| 0 <= j < k ==> #[trigger] enemies@[j] == switched(old(enemies)@[j], from, to),
            forall|j: int| k <= j < enemies@.len() ==> #[trigger] enemies@[j] == old(enemies)@[j],
        decreases enemies@.len() - k,
    {
        if enemies[k].mode == from {
            let mut e = enemies[k];
            e.mode = to;
            enemies.set(k, e);
        }
        k += 1;
    }
}

/// The player picked up a weapon: every roaming enemy becomes frightened.
pub fn frighten_enemies(enemies: &mut Vec<Enemy>)
    ensures
        final(enemies)@.len() == old(enemies)@.len(),
        forall|k: int|
            0 <= k < old(enemies)@.len() ==> #[trigger] final(enemies)@[k] == switched(
                old(enemies)@[k],
                EnemyMode::Roaming,
                EnemyMode::Frightened,
            ),
{
    switch_modes(enemies, EnemyMode::Roaming, EnemyMode::Frightened);
}

/// The weapon wore off: every frightened enemy roams again.
pub fn calm_enemies(enemies: &mut Vec<Enemy>)
    ensures
        final(enemies)@.len() == old(enemies)@.len(),
        forall|k: int|
            0 <= k < old(enemies)@.len() ==> #[trigger] final(enemies)@[k] == switched(
                old(enemies)@[k],
                EnemyMode::Frightened,
                EnemyMode::Roaming,
            ),
{
    switch_modes(enemies, EnemyMode::Frightened, EnemyMode::Roaming);
}

/// Whether an armed player at `player_pos` kills enemy `e`: it is frightened and on the player's cell.
pub open spec fn is_killed(e: Enemy, player_pos: GridPosition, armed: bool) -> bool {
    armed && e.mode == EnemyMode::Frightened && e.mover.pos == player_pos
}

/// Enemy `e` once killed: respawning, with no move asked for or in flight.
pub open spec fn killed(e: Enemy) -> Enemy {
    Enemy {
        mode: EnemyMode::Respawning,
        mover: crate::movement::Mover { direction: None, lerp: None, ..e.mover },
        ..e
    }
}

/// How many of `enemies` the player kills.
pub open spec fn kill_count(enemies: Seq<Enemy>, player_pos: GridPosition, armed: bool) -> nat
    decreases enemies.len(),
{
    if enemies.len() == 0 {
        0
    } else {
        kill_count(enemies.drop_last(), player_pos, armed) + if is_killed(enemies.last(), player_pos, armed) {
            1nat
        } else {
            0nat
        }
    }
}

proof fn lemma_kill_count_bound(enemies: Seq<Enemy>, player_pos: GridPosition, armed: bool)
    ensures
        kill_count(enemies, player_pos, armed) <= enemies.len(),
    decreases enemies.len(),
{
    if enemies.len() > 0 {
        lemma_kill_count_bound(enemies.drop_last(), player_pos, armed);
    }
}

/// An armed player kills every frightened enemy on its cell; each kill
/// scores. Returns the number of kills.
pub fn player_kills_enemy(player_pos: GridPosition, armed: bool, enemies: &mut Vec<Enemy>, score: &mut u64) -> (r: u64)
    requires
        *old(score) + KILL_SCORE * old(enemies)@.len() <= u64::MAX,
    ensures
        r == kill_count(old(enemies)@, player_pos, armed),
        *final(score) == *old(score) + KILL_SCORE * r,
        final(enemies)@.len() == old(enemies)@.len(),
        forall|k: int|
            0 <= k < old(enemies)@.len() ==> #[trigger] final(enemies)@[k] == if is_killed(
                old(enemies)@[k],
                player_pos,
                armed,
            ) {
                killed(old(enemies)@[k])
            } else {
                old(enemies)@[k]
            },
{
    let ghost start = enemies@;
    let mut kills: u64 = 0;
    let mut k: usize = 0;
    while k < enemies.len()
        invariant
            0 <= k <= enemies@.len(),
            enemies@.len() == start.len(),
            start == old(enemies)@,
            *old(score) + KILL_SCORE * start.len() <= u64::MAX,
            kills == kill_count(start.take(k as int), player_pos, armed),
            kills <= k,
            *score == *old(score) + KILL_SCORE * kills,
            forall|j: int|
                0 <= j < k ==> #[trigger] enemies@[j] == if is_killed(start[j], player_pos, armed) {
                    killed(start[j])
                } else {
                    start[j]
                },
            forall|j: int| k <= j < enemies@.len() ==> #[trigger] enemies@[j] == start[j],
        decreases enemies@.len() - k,
    {
        assert(start.take(k + 1).drop_last() == start.take(k as int));
        let e = enemies[k];
        if armed && e.mode == EnemyMode::Frightened && e.mover.pos == player_pos {
            let mut n = e;
            n.mode = EnemyMode::Respawning;
            n.mover.direction = None;
            n.mover.lerp = None;
            enemies.set(k, n);
            assert(KILL_SCORE * (kills + 1) <= KILL_SCORE * start.len()) by (nonlinear_arith)
                requires
                    kills + 1 <= start.len(),
            ;
            kills = kills + 1;
            *score = *score + KILL_SCORE;
        }
        k += 1;
    }
    assert(start.take(k as int) == start);
    kills
}

/// A respawning enemy whose wait is over returns to its spawn cell, in the pen.
pub fn enemy_respawn(enemy: &mut Enemy)
    ensures
        old(enemy).mode == EnemyMode::Respawning ==> *final(enemy) == (Enemy {
            mode: EnemyMode::InPen,
            mover: (crate::movement::Mover { pos: old(enemy).spawn, ..old(enemy).mover }),
            ..*old(enemy)
        }),
        old(enemy).mode != EnemyMode::Respawning ==> *final(enemy) == *old(enemy),
{
    if enemy.mode == EnemyMode::Respawning {
        enemy.mover.pos = enemy.spawn;
        enemy.mode = EnemyMode::InPen;
    }
}

} // verus!
