use optimism::combat::{
    calm_enemies, enemy_respawn, frighten_enemies, frightened_direction, player_kills_enemy,
    weapon_pickup, WeaponPickup, WeaponType,
};
use optimism::enemies::{
    collides, enemy_ai, enemy_player_collision, handle_player_death, pen_release, spawn_enemies,
    DeathOutcome, Enemy, EnemyKind, EnemyMode,
};
use optimism::grid::{Direction, GridPosition};
use optimism::maze::MazeMap;
use optimism::movement::{MoveLerp, Mover};
use optimism::player::Player;
use optimism::resources::Lives;

fn gp(x: i32, y: i32) -> GridPosition {
    GridPosition { x, y }
}

fn enemy_at(kind: EnemyKind, mode: EnemyMode, pos: GridPosition) -> Enemy {
    Enemy { kind, mode, mover: Mover::at(pos), facing: Direction::Down, spawn: pos }
}

fn mover_from(pos: GridPosition, previous: Option<GridPosition>) -> Mover {
    let mut m = Mover::at(pos);
    m.previous = previous;
    m
}

#[test]
fn enemy_collision_triggers_death() {
    let pos = gp(1, 1);
    let player = Mover::at(pos);
    let enemies = vec![enemy_at(EnemyKind::Soldier, EnemyMode::Roaming, pos)];
    let mut lives = Lives(3);
    let mut deaths: u32 = 0;
    assert!(enemy_player_collision(&player, &enemies, &mut lives, &mut deaths));
    assert_eq!(lives.0, 2);
    assert_eq!(deaths, 1);
}

#[test]
fn zero_lives_triggers_game_over() {
    let pos = gp(1, 1);
    let mut player = Player { mover: Mover::at(pos), spawn: pos, input: None, facing: Direction::Down };
    let mut enemies = vec![enemy_at(EnemyKind::Soldier, EnemyMode::Roaming, pos)];
    let mut lives = Lives(1);
    let mut deaths: u32 = 0;
    assert!(enemy_player_collision(&player.mover, &enemies, &mut lives, &mut deaths));
    assert_eq!(lives.0, 0);
    assert_eq!(handle_player_death(&mut player, &mut enemies, lives), DeathOutcome::GameOver);
}

#[test]
fn head_on_crossing_triggers_death() {
    let player = mover_from(gp(1, 1), Some(gp(2, 1)));
    let enemy = Enemy {
        mover: mover_from(gp(2, 1), Some(gp(1, 1))),
        ..enemy_at(EnemyKind::Soldier, EnemyMode::Roaming, gp(2, 1))
    };
    let mut lives = Lives(3);
    let mut deaths: u32 = 0;
    assert!(enemy_player_collision(&player, &vec![enemy], &mut lives, &mut deaths));
    assert_eq!(lives.0, 2);
}

#[test]
fn in_pen_enemies_dont_collide() {
    let pos = gp(1, 1);
    let player = Mover::at(pos);
    let enemies = vec![enemy_at(EnemyKind::Soldier, EnemyMode::InPen, pos)];
    let mut lives = Lives(3);
    let mut deaths: u32 = 0;
    assert!(!enemy_player_collision(&player, &enemies, &mut lives, &mut deaths));
    assert_eq!(lives.0, 3);
    assert_eq!(deaths, 0);
}

#[test]
fn crossing_paths_collide() {
    let player = mover_from(gp(1, 1), Some(gp(2, 1)));
    let enemy = mover_from(gp(2, 1), Some(gp(1, 1)));
    assert!(collides(&player, &enemy));
    // Without a previous cell on either side there is no crossing.
    assert!(!collides(&Mover::at(gp(1, 1)), &enemy));
    assert!(!collides(&player, &Mover::at(gp(2, 1))));
    // Moving the same way is no crossing.
    assert!(!collides(&mover_from(gp(2, 1), Some(gp(1, 1))), &mover_from(gp(3, 1), Some(gp(2, 1)))));
}

#[test]
fn same_tile_collides_whatever_came_before() {
    let cases = [None, Some(gp(3, 2)), Some(gp(4, 3))];
    for pp in cases {
        for ep in cases {
            assert!(collides(&mover_from(gp(3, 3), pp), &mover_from(gp(3, 3), ep)));
        }
    }
}

#[test]
fn only_roaming_enemies_kill_and_lives_stay_at_zero() {
    let pos = gp(2, 2);
    let player = Mover::at(pos);
    let enemies = vec![
        enemy_at(EnemyKind::Thief, EnemyMode::Frightened, pos),
        enemy_at(EnemyKind::Brute, EnemyMode::Respawning, pos),
        enemy_at(EnemyKind::Inquisitor, EnemyMode::InPen, pos),
    ];
    let mut lives = Lives(0);
    let mut deaths: u32 = 5;
    assert!(!enemy_player_collision(&player, &enemies, &mut lives, &mut deaths));
    let enemies = vec![enemy_at(EnemyKind::Brute, EnemyMode::Roaming, pos)];
    assert!(enemy_player_collision(&player, &enemies, &mut lives, &mut deaths));
    assert_eq!(lives.0, 0);
    assert_eq!(deaths, 6);
    // The death count stops at its largest value.
    let mut deaths = u32::MAX;
    assert!(enemy_player_collision(&player, &enemies, &mut lives, &mut deaths));
    assert_eq!(deaths, u32::MAX);
}

#[test]
fn death_resets_everyone_to_spawn() {
    let mut player = Player {
        mover: mover_from(gp(3, 1), Some(gp(2, 1))),
        spawn: gp(1, 1),
        input: Some(Direction::Left),
        facing: Direction::Left,
    };
    player.mover.lerp = Some(MoveLerp { from: gp(2, 1), to: gp(3, 1), t: 5 });
    let mut e = enemy_at(EnemyKind::Thief, EnemyMode::Frightened, gp(3, 3));
    e.mover = mover_from(gp(2, 3), Some(gp(3, 3)));
    let mut enemies = vec![e];
    assert_eq!(handle_player_death(&mut player, &mut enemies, Lives(2)), DeathOutcome::Resume);
    assert_eq!(player.mover.pos, gp(1, 1));
    assert!(player.mover.lerp.is_none());
    assert!(player.mover.previous.is_none());
    assert!(player.input.is_none());
    assert_eq!(enemies[0].mover.pos, gp(3, 3));
    assert_eq!(enemies[0].mode, EnemyMode::InPen);
    assert!(enemies[0].mover.previous.is_none());
}

#[test]
fn spawned_enemies_cycle_kinds_in_pen() {
    let maze = MazeMap::parse("#######\n#P    #\n#GGGGG#\n#######").unwrap();
    let enemies = spawn_enemies(&maze);
    let kinds: Vec<EnemyKind> = enemies.iter().map(|e| e.kind).collect();
    assert_eq!(
        kinds,
        vec![
            EnemyKind::Soldier,
            EnemyKind::Inquisitor,
            EnemyKind::Thief,
            EnemyKind::Brute,
            EnemyKind::Soldier
        ]
    );
    for (i, e) in enemies.iter().enumerate() {
        assert_eq!(e.mode, EnemyMode::InPen);
        assert_eq!(e.spawn, gp(i as i32 + 1, 2));
        assert_eq!(e.mover.pos, e.spawn);
    }
}

#[test]
fn pen_releases_one_at_a_time() {
    let mut enemies = vec![
        enemy_at(EnemyKind::Soldier, EnemyMode::Roaming, gp(1, 1)),
        enemy_at(EnemyKind::Inquisitor, EnemyMode::InPen, gp(2, 1)),
        enemy_at(EnemyKind::Thief, EnemyMode::InPen, gp(3, 1)),
    ];
    pen_release(&mut enemies);
    assert_eq!(enemies[1].mode, EnemyMode::Roaming);
    assert_eq!(enemies[2].mode, EnemyMode::InPen);
    pen_release(&mut enemies);
    assert_eq!(enemies[2].mode, EnemyMode::Roaming);
    pen_release(&mut enemies);
    assert!(enemies.iter().all(|e| e.mode == EnemyMode::Roaming));
}

#[test]
fn enemy_ai_dispatches_by_mode_and_kind() {
    let maze = MazeMap::parse("#####\n#P  #\n#   #\n#  G#\n#####").unwrap();
    let player = gp(1, 1);
    let mut moving = enemy_at(EnemyKind::Soldier, EnemyMode::Roaming, gp(2, 2));
    moving.mover.lerp = Some(MoveLerp { from: gp(3, 2), to: gp(2, 2), t: 1 });
    let mut enemies = vec![
        enemy_at(EnemyKind::Soldier, EnemyMode::Roaming, gp(3, 3)),
        enemy_at(EnemyKind::Soldier, EnemyMode::InPen, gp(3, 3)),
        enemy_at(EnemyKind::Brute, EnemyMode::Frightened, gp(2, 2)),
        moving,
    ];
    enemy_ai(&mut enemies, player, Direction::Down, &maze);
    let d = enemies[0].mover.direction.unwrap();
    assert!(d == Direction::Left || d == Direction::Up);
    assert_eq!(enemies[0].facing, d);
    assert!(enemies[1].mover.direction.is_none());
    assert_eq!(enemies[2].mover.direction, Some(Direction::Down));
    assert!(enemies[3].mover.direction.is_none());
}

#[test]
fn weapon_pickup_activates_and_frightens() {
    let pos = gp(1, 1);
    let mut weapons = vec![WeaponPickup { pos, weapon: WeaponType::Bat }];
    let mut enemies = vec![enemy_at(EnemyKind::Soldier, EnemyMode::Roaming, gp(3, 3))];
    assert_eq!(weapon_pickup(pos, &mut weapons, &mut enemies), Some(WeaponType::Bat));
    assert!(weapons.is_empty());
    assert_eq!(enemies[0].mode, EnemyMode::Frightened);
}

#[test]
fn weapon_elsewhere_is_left_alone() {
    let mut weapons = vec![
        WeaponPickup { pos: gp(2, 1), weapon: WeaponType::Knife },
        WeaponPickup { pos: gp(1, 1), weapon: WeaponType::Axe },
        WeaponPickup { pos: gp(1, 1), weapon: WeaponType::Chainsaw },
    ];
    let mut enemies = vec![
        enemy_at(EnemyKind::Soldier, EnemyMode::Roaming, gp(3, 3)),
        enemy_at(EnemyKind::Thief, EnemyMode::Respawning, gp(3, 3)),
    ];
    assert_eq!(weapon_pickup(gp(3, 1), &mut weapons, &mut enemies), None);
    assert_eq!(weapons.len(), 3);
    assert_eq!(enemies[0].mode, EnemyMode::Roaming);
    assert_eq!(weapon_pickup(gp(1, 1), &mut weapons, &mut enemies), Some(WeaponType::Axe));
    assert_eq!(weapons.len(), 2);
    assert_eq!(weapons[1].weapon, WeaponType::Chainsaw);
    assert_eq!(enemies[0].mode, EnemyMode::Frightened);
    assert_eq!(enemies[1].mode, EnemyMode::Respawning);
}

#[test]
fn frighten_and_calm_by_mode() {
    let mut enemies = vec![enemy_at(EnemyKind::Soldier, EnemyMode::Roaming, gp(3, 3))];
    frighten_enemies(&mut enemies);
    assert_eq!(enemies[0].mode, EnemyMode::Frightened);
    calm_enemies(&mut enemies);
    assert_eq!(enemies[0].mode, EnemyMode::Roaming);
}

#[test]
fn player_kills_frightened_enemy() {
    let pos = gp(1, 1);
    let mut e = enemy_at(EnemyKind::Soldier, EnemyMode::Frightened, pos);
    e.spawn = gp(5, 5);
    let mut enemies = vec![e];
    let mut score: u64 = 0;
    assert_eq!(player_kills_enemy(pos, true, &mut enemies, &mut score), 1);
    assert_eq!(enemies[0].mode, EnemyMode::Respawning);
    assert_ne!(enemies[0].mode, EnemyMode::Frightened);
    assert_eq!(score, 200);
    enemy_respawn(&mut enemies[0]);
    assert_eq!(enemies[0].mode, EnemyMode::InPen);
    assert_eq!(enemies[0].mover.pos, gp(5, 5));
}

#[test]
fn unarmed_player_doesnt_kill() {
    let pos = gp(1, 1);
    let mut enemies = vec![enemy_at(EnemyKind::Soldier, EnemyMode::Frightened, pos)];
    let mut score: u64 = 0;
    assert_eq!(player_kills_enemy(pos, false, &mut enemies, &mut score), 0);
    assert_ne!(enemies[0].mode, EnemyMode::Respawning);
    assert_eq!(score, 0);
}

#[test]
fn frightened_direction_flees_player() {
    let maze = MazeMap::parse("#####\n#   #\n# P #\n#   #\n#####").unwrap();
    let dir = frightened_direction(gp(2, 2), gp(1, 2), &maze);
    // Up, down and right each lead two cells from the player; the first of
    // them in the order up, down, left, right is taken.
    assert_eq!(dir, Some(Direction::Up));
    // With the tie broken by the walls, the enemy flees straight away.
    let corridor = MazeMap::parse("#####\n#P  #\n#####").unwrap();
    assert_eq!(frightened_direction(gp(2, 1), gp(1, 1), &corridor), Some(Direction::Right));
}

#[test]
fn flee_ties_go_to_the_first_direction() {
    let maze = MazeMap::parse("#####\n#   #\n# P #\n#   #\n#####").unwrap();
    // Player on the enemy's cell: every step leads one away; up comes first.
    assert_eq!(frightened_direction(gp(2, 2), gp(2, 2), &maze), Some(Direction::Up));
    // Player up-left: down and right tie; down comes first.
    assert_eq!(frightened_direction(gp(2, 2), gp(1, 1), &maze), Some(Direction::Down));
    let boxed = MazeMap::parse("###\n#P#\n###").unwrap();
    assert_eq!(frightened_direction(gp(1, 1), gp(1, 1), &boxed), None);
}
