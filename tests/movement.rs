use optimism::grid::{Direction, GridPosition};
use optimism::maze::MazeMap;
use optimism::movement::{MoveLerp, Mover, Walker, PROGRESS_FULL};

fn gp(x: i32, y: i32) -> GridPosition {
    GridPosition { x, y }
}

fn test_maze() -> MazeMap {
    MazeMap::parse("####\n#P.#\n#..#\n####").unwrap()
}

fn moving(pos: GridPosition, d: Direction) -> Mover {
    let mut m = Mover::at(pos);
    m.request(d);
    m
}

#[test]
fn player_moves_to_empty_tile() {
    let maze = test_maze();
    let mut player = moving(gp(1, 1), Direction::Right);
    player.validate_move(&maze, Walker::Player);
    assert_eq!(player.pos, GridPosition { x: 2, y: 1 });
}

#[test]
fn player_cannot_move_into_wall() {
    let maze = test_maze();
    let mut player = moving(gp(1, 1), Direction::Up);
    player.validate_move(&maze, Walker::Player);
    assert_eq!(player.pos, GridPosition { x: 1, y: 1 });
    assert!(player.direction.is_none());
}

#[test]
fn lerp_created_on_valid_move() {
    let maze = test_maze();
    let mut player = moving(gp(1, 1), Direction::Right);
    player.validate_move(&maze, Walker::Player);
    assert!(player.lerp.is_some());
    assert_eq!(player.pos, GridPosition { x: 2, y: 1 });
}

#[test]
fn no_new_move_while_lerping() {
    let maze = test_maze();
    let mut player = moving(gp(1, 1), Direction::Right);
    player.validate_move(&maze, Walker::Player);
    assert_eq!(player.pos, gp(2, 1));
    player.request(Direction::Down);
    player.validate_move(&maze, Walker::Player);
    assert_eq!(player.pos, gp(2, 1));
}

#[test]
fn commit_records_previous_cell_and_interpolation() {
    let maze = test_maze();
    let mut m = moving(gp(1, 1), Direction::Down);
    m.validate_move(&maze, Walker::Enemy);
    assert_eq!(m.pos, gp(1, 2));
    assert_eq!(m.previous, Some(gp(1, 1)));
    assert_eq!(m.lerp, Some(MoveLerp { from: gp(1, 1), to: gp(1, 2), t: 0 }));
    assert_eq!(m.direction, Some(Direction::Down));
}

#[test]
fn interpolation_advances_then_completes() {
    let maze = test_maze();
    let mut m = moving(gp(1, 1), Direction::Right);
    m.validate_move(&maze, Walker::Player);
    m.advance(400_000);
    assert_eq!(m.lerp.unwrap().t, 400_000);
    assert_eq!(m.pos, gp(2, 1));
    // A request while moving is ignored until the move is over.
    m.request(Direction::Down);
    m.validate_move(&maze, Walker::Player);
    assert_eq!(m.pos, gp(2, 1));
    m.advance(400_000);
    assert_eq!(m.lerp.unwrap().t, 800_000);
    m.advance(u32::MAX);
    assert!(m.lerp.is_none());
    assert!(m.previous.is_none());
    assert!(m.direction.is_none());
    assert_eq!(m.pos, gp(2, 1));
    // Idle again: the next request moves.
    m.request(Direction::Down);
    m.validate_move(&maze, Walker::Player);
    assert_eq!(m.pos, gp(2, 2));
}

#[test]
fn exact_full_progress_completes() {
    let maze = test_maze();
    let mut m = moving(gp(1, 1), Direction::Right);
    m.validate_move(&maze, Walker::Player);
    m.advance(PROGRESS_FULL);
    assert!(m.lerp.is_none());
}

#[test]
fn pen_gate_stops_player_not_enemy() {
    let maze = MazeMap::parse("#####\n#P-.#\n#####").unwrap();
    let mut player = moving(gp(1, 1), Direction::Right);
    player.validate_move(&maze, Walker::Player);
    assert_eq!(player.pos, gp(1, 1));
    assert!(player.direction.is_none());
    let mut enemy = moving(gp(1, 1), Direction::Right);
    enemy.validate_move(&maze, Walker::Enemy);
    assert_eq!(enemy.pos, gp(2, 1));
}

#[test]
fn idle_without_request_stays() {
    let maze = test_maze();
    let mut m = Mover::at(gp(1, 1));
    m.validate_move(&maze, Walker::Player);
    assert_eq!(m.pos, gp(1, 1));
    assert!(m.lerp.is_none());
    m.advance(10);
    assert!(m.lerp.is_none());
}

#[test]
fn move_off_the_map_is_rejected() {
    let maze = test_maze();
    let mut m = moving(gp(i32::MAX, 1), Direction::Right);
    m.validate_move(&maze, Walker::Enemy);
    assert_eq!(m.pos, gp(i32::MAX, 1));
    assert!(m.direction.is_none());
}
