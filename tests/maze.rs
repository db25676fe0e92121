use optimism::grid::GridPosition;
use optimism::maze::{grid_to_world, MazeError, MazeMap, TileType, TILE_SIZE};

const TEST_MAZE: &str = "####\n#P.#\n#G #\n####";

fn gp(x: i32, y: i32) -> GridPosition {
    GridPosition { x, y }
}

#[test]
fn parse_small_maze() {
    let maze = MazeMap::parse(TEST_MAZE).unwrap();
    assert_eq!(maze.width, 4);
    assert_eq!(maze.height, 4);
    assert_eq!(maze.player_spawn, GridPosition { x: 1, y: 1 });
    assert_eq!(maze.enemy_spawns.len(), 1);
    assert_eq!(maze.enemy_spawns[0], GridPosition { x: 1, y: 2 });
}

#[test]
fn walkability() {
    let maze = MazeMap::parse(TEST_MAZE).unwrap();
    assert!(!maze.is_walkable(gp(0, 0)));
    assert!(maze.is_walkable(gp(2, 1)));
    assert!(maze.is_walkable(gp(1, 1)));
    assert!(maze.is_walkable(gp(1, 2)));
    assert!(maze.is_walkable(gp(2, 2)));
    assert!(!maze.is_walkable(gp(-1, 0)));
    assert!(!maze.is_walkable(gp(10, 10)));
}

#[test]
fn pen_gate_walkability() {
    let maze = MazeMap::parse("#-#\n#P#\n###").unwrap();
    let gate = gp(1, 0);
    assert!(maze.is_walkable_for_enemy(gate));
    assert!(!maze.is_walkable_for_player(gate));
}

#[test]
fn grid_to_world_center() {
    let (x, y) = grid_to_world(gp(0, 0), 4, 4);
    assert!((x as f32 - (-48.0)).abs() < 0.01);
    assert!((y as f32 - 48.0).abs() < 0.01);
}

#[test]
fn grid_to_world_roundtrip() {
    let width: usize = 10;
    let height: usize = 8;
    let tile = TILE_SIZE as f32;
    for y in 0..height {
        for x in 0..width {
            let pos = gp(x as i32, y as i32);
            let (wx, wy) = grid_to_world(pos, width, height);
            let half_w = (width as f32 * tile) / 2.0;
            let half_h = (height as f32 * tile) / 2.0;
            let rx = ((wx as f32 + half_w - tile / 2.0) / tile).round() as i32;
            let ry = ((-(wy as f32) + half_h - tile / 2.0) / tile).round() as i32;
            assert_eq!(rx, pos.x, "X roundtrip failed for ({}, {})", x, y);
            assert_eq!(ry, pos.y, "Y roundtrip failed for ({}, {})", x, y);
        }
    }
}

#[test]
fn malformed_maze_no_player() {
    let result = MazeMap::parse("####\n#..#\n####");
    assert!(result.is_err());
    assert!(result.unwrap_err().message().contains("No player spawn"));
}

#[test]
fn malformed_maze_bad_char() {
    let result = MazeMap::parse("####\n#P?#\n####");
    assert!(result.is_err());
    assert!(result.unwrap_err().message().contains("Unknown tile character"));
}

#[test]
fn malformed_maze_duplicate_player() {
    let result = MazeMap::parse("####\n#PP#\n####");
    assert!(result.is_err());
    assert!(result.unwrap_err().message().contains("Multiple player spawns"));
}

#[test]
fn weapon_and_luxury_spawns_parsed() {
    let maze = MazeMap::parse("####\n#PW#\n#L #\n####").unwrap();
    assert_eq!(maze.weapon_spawns.len(), 1);
    assert_eq!(maze.weapon_spawns[0], gp(2, 1));
    assert_eq!(maze.luxury_spawns.len(), 1);
    assert_eq!(maze.luxury_spawns[0], gp(1, 2));
}

#[test]
fn enemy_neighbors() {
    let maze = MazeMap::parse(TEST_MAZE).unwrap();
    let neighbors = maze.enemy_neighbors(gp(1, 2));
    assert!(neighbors.contains(&gp(1, 1)));
    assert!(neighbors.contains(&gp(2, 2)));
    assert!(!neighbors.contains(&gp(0, 2)));
}

#[test]
fn player_spawn_found_where_written() {
    let maze = MazeMap::parse("#####\n#   #\n#  P#\n#####").unwrap();
    assert_eq!(maze.player_spawn, gp(3, 2));
    let maze = MazeMap::parse("P").unwrap();
    assert_eq!(maze.player_spawn, gp(0, 0));
    assert_eq!(maze.width, 1);
    assert_eq!(maze.height, 1);
}

#[test]
fn error_kinds_carry_positions() {
    assert_eq!(
        MazeMap::parse("####\n#P?#\n####").unwrap_err(),
        MazeError::UnknownTile { ch: '?', x: 2, y: 1 }
    );
    assert_eq!(
        MazeMap::parse("####\n#PP#\n####").unwrap_err(),
        MazeError::MultiplePlayerSpawns { x: 2, y: 1 }
    );
    assert_eq!(MazeMap::parse("####\n#..#\n####").unwrap_err(), MazeError::NoPlayerSpawn);
    // The first offending character in reading order is reported.
    assert_eq!(
        MazeMap::parse("#x#\n#PP").unwrap_err(),
        MazeError::UnknownTile { ch: 'x', x: 1, y: 0 }
    );
    assert_eq!(
        MazeMap::parse("P#\nP?").unwrap_err(),
        MazeError::MultiplePlayerSpawns { x: 0, y: 1 }
    );
}

#[test]
fn empty_and_zero_width_mazes_fail() {
    assert_eq!(MazeMap::parse("").unwrap_err(), MazeError::Empty);
    assert_eq!(MazeMap::parse("\n").unwrap_err(), MazeError::ZeroWidth);
    assert_eq!(MazeMap::parse("\n\n").unwrap_err(), MazeError::ZeroWidth);
    assert!(MazeError::Empty.message().contains("Empty"));
    assert!(MazeError::ZeroWidth.message().contains("zero width"));
}

#[test]
fn short_rows_are_padded_with_floor() {
    let maze = MazeMap::parse("#####\n#P\n#####").unwrap();
    assert_eq!(maze.width, 5);
    assert_eq!(maze.tiles[1].len(), 5);
    assert_eq!(maze.tile_at(gp(2, 1)), Some(TileType::Floor));
    assert_eq!(maze.tile_at(gp(4, 1)), Some(TileType::Floor));
    assert_eq!(maze.tile_at(gp(1, 1)), Some(TileType::PlayerSpawn));
}

#[test]
fn line_endings_follow_text_lines() {
    let maze = MazeMap::parse("###\r\n#P#\r\n###\n").unwrap();
    assert_eq!(maze.height, 3);
    assert_eq!(maze.width, 3);
    assert_eq!(maze.player_spawn, gp(1, 1));
    // A carriage return not followed by a newline is no tile.
    assert_eq!(
        MazeMap::parse("#P#\r").unwrap_err(),
        MazeError::UnknownTile { ch: '\r', x: 3, y: 0 }
    );
}

#[test]
fn all_tile_characters_map() {
    let maze = MazeMap::parse("#. PGWL-").unwrap();
    let expected = [
        TileType::Wall,
        TileType::Money,
        TileType::Floor,
        TileType::PlayerSpawn,
        TileType::EnemySpawn,
        TileType::WeaponSpawn,
        TileType::LuxurySpawn,
        TileType::PenGate,
    ];
    for (x, t) in expected.iter().enumerate() {
        assert_eq!(maze.tile_at(gp(x as i32, 0)), Some(*t));
    }
    assert!(!TileType::Wall.is_walkable_floor());
    assert!(!TileType::PenGate.is_walkable_floor());
    assert!(TileType::Money.is_walkable_floor());
}

#[test]
fn spawns_listed_in_reading_order() {
    let maze = MazeMap::parse("G  G\n P  \nG  W").unwrap();
    assert_eq!(maze.enemy_spawns, vec![gp(0, 0), gp(3, 0), gp(0, 2)]);
    assert_eq!(maze.weapon_spawns, vec![gp(3, 2)]);
    assert!(maze.luxury_spawns.is_empty());
}

#[test]
fn pen_gate_blocks_player_passes_enemy() {
    let maze = MazeMap::parse("#####\n#-P-#\n#####").unwrap();
    for gate in [gp(1, 1), gp(3, 1)] {
        assert!(maze.is_walkable(gate));
        assert!(maze.is_walkable_for_enemy(gate));
        assert!(!maze.is_walkable_for_player(gate));
    }
    assert!(maze.is_walkable_for_player(gp(2, 1)));
}

#[test]
fn out_of_bounds_is_never_walkable() {
    let maze = MazeMap::parse(TEST_MAZE).unwrap();
    let outside = [
        gp(-1, 1),
        gp(1, -1),
        gp(4, 1),
        gp(1, 4),
        gp(i32::MIN, i32::MIN),
        gp(i32::MAX, i32::MAX),
        gp(i32::MAX, 0),
        gp(0, i32::MIN),
    ];
    for p in outside {
        assert!(!maze.is_walkable(p));
        assert!(!maze.is_walkable_for_player(p));
        assert!(!maze.is_walkable_for_enemy(p));
        assert_eq!(maze.tile_at(p), None);
    }
    assert!(maze.enemy_neighbors(gp(i32::MAX, i32::MAX)).is_empty());
    assert!(maze.enemy_neighbors(gp(i32::MIN, 0)).is_empty());
}

#[test]
fn neighbours_in_order_up_down_left_right() {
    let maze = MazeMap::parse("#####\n#   #\n# P #\n#   #\n#####").unwrap();
    assert_eq!(
        maze.enemy_neighbors(gp(2, 2)),
        vec![gp(2, 1), gp(2, 3), gp(1, 2), gp(3, 2)]
    );
}

#[test]
fn error_messages_name_the_position() {
    assert_eq!(
        MazeMap::parse("####\n#P?#\n####").unwrap_err().message(),
        "Unknown tile character '?' at (2, 1)"
    );
    assert_eq!(
        MazeMap::parse("####\n#PP#\n####").unwrap_err().message(),
        "Multiple player spawns at (2, 1)"
    );
    assert_eq!(
        MazeError::UnknownTile { ch: 'é', x: 1234567, y: 0 }.message(),
        "Unknown tile character 'é' at (1234567, 0)"
    );
    assert_eq!(
        MazeError::MultiplePlayerSpawns { x: 10, y: 909 }.message(),
        "Multiple player spawns at (10, 909)"
    );
    assert_eq!(MazeError::NoPlayerSpawn.message(), "No player spawn ('P') found in maze");
    assert_eq!(MazeError::Empty.message(), "Empty maze");
    assert_eq!(MazeError::TooLarge.message(), "Maze too large");
}
