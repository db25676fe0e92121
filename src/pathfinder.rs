//! Shortest-path search over enemy-walkable cells, and the first step of
//! such a path.

use vstd::prelude::*;

use crate::grid::{adjacent, dist, is_ahead, Direction, GridPosition};
use crate::maze::MazeMap;

verus! {

/// `w` is a walk of an enemy: a non-empty sequence of cells, each one step
/// from the one before it and enemy-walkable.
pub open spec fn is_walk(maze: &MazeMap, w: Seq<GridPosition>) -> bool {
    &&& w.len() >= 1
    &&& forall|i: int| 0 <= i < w.len() - 1 ==> maze.enemy_step(#[trigger] w[i], w[i + 1])
}

/// `w` is a walk from `a` to `b`, both ends included.
pub open spec fn walk_between(maze: &MazeMap, w: Seq<GridPosition>, a: GridPosition, b: GridPosition) -> bool {
    &&& is_walk(maze, w)
    &&& w[0] == a
    &&& w.last() == b
}

pub open spec fn reachable(maze: &MazeMap, a: GridPosition, b: GridPosition) -> bool {
    exists|w: Seq<GridPosition>| walk_between(maze, w, a, b)
}

/// `w` is a walk from `a` to `b` with no more cells than any other.
pub open spec fn shortest_walk(maze: &MazeMap, w: Seq<GridPosition>, a: GridPosition, b: GridPosition) -> bool {
    &&& walk_between(maze, w, a, b)
    &&& forall|v: Seq<GridPosition>| #[trigger] walk_between(maze, v, a, b) ==> w.len() <= v.len()
}

/// Stepping from `a` in direction `d` starts some shortest walk from `a` to `b`.
pub open spec fn starts_shortest(maze: &MazeMap, a: GridPosition, b: GridPosition, d: Direction) -> bool {
    exists|w: Seq<GridPosition>|
        #[trigger] shortest_walk(maze, w, a, b) && w.len() >= 2 && is_ahead(a, d, 1, w[1])
}

/// The outcome that a search for the first step from `from` towards `target` must have.
pub open spec fn first_step_ok(maze: &MazeMap, from: GridPosition, target: GridPosition, r: Option<Direction>) -> bool {
    match r {
        Some(d) => starts_shortest(maze, from, target, d),
        None => from == target || !reachable(maze, from, target),
    }
}

/// Manhattan distance, exact for any two cells.
fn distance_estimate(a: &GridPosition, b: &GridPosition) -> (r: u64)
    ensures
        r == dist(*a, *b),
{
    let dx: i64 = a.x as i64 - b.x as i64;
    let dy: i64 = a.y as i64 - b.y as i64;
    let ax: u64 = if dx < 0 { (-dx) as u64 } else { dx as u64 };
    let ay: u64 = if dy < 0 { (-dy) as u64 } else { dy as u64 };
    ax + ay
}

/// Whether two cells are the same.
fn same_cell(a: &GridPosition, b: &GridPosition) -> (r: bool)
    ensures
        r == (*a == *b),
{
    a.x == b.x && a.y == b.y
}

/// The enemy-walkable neighbours of `pos`, each with a move cost of one.
fn weighted_neighbors(maze: &MazeMap, pos: &GridPosition) -> (r: Vec<(GridPosition, u64)>)
    ensures
        forall|i: int| 0 <= i < r@.len() ==> (#[trigger] r@[i]).1 == 1,
        forall|b: GridPosition, c: u64| r@.contains((b, c)) <==> (maze.enemy_step(*pos, b) && c == 1),
{
    let ns = maze.enemy_neighbors(*pos);
    let mut r: Vec<(GridPosition, u64)> = Vec::new();
    let mut i: usize = 0;
    while i < ns.len()
        invariant
            0 <= i <= ns@.len(),
            r@.len() == i,
            forall|k: int| 0 <= k < i ==> #[trigger] r@[k] == (ns@[k], 1u64),
        decreases ns@.len() - i,
    {
        r.push((ns[i], 1));
        i += 1;
    }
    assert forall|b: GridPosition, c: u64| r@.contains((b, c)) <==> (maze.enemy_step(*pos, b) && c == 1) by {
        if r@.contains((b, c)) {
            let k = choose|k: int| 0 <= k < r@.len() && r@[k] == (b, c);
            assert(ns@.contains(b));
        }
        if maze.enemy_step(*pos, b) && c == 1 {
            assert(ns@.contains(b));
            let k = choose|k: int| 0 <= k < ns@.len() && ns@[k] == b;
            assert(r@[k] == (b, c));
        }
    }
    r
}

/// Relies on `pathfinding::directed::astar::astar`, called with unit move
/// costs over `MazeMap::enemy_neighbors` and the Manhattan distance as
/// heuristic (never above the true cost on a four-way grid): it returns a
/// shortest path from `from` to `target`, both ends included, with its cost,
/// or `None` when no path exists.
#[verifier::external_body]
fn astar_path(maze: &MazeMap, from: GridPosition, target: GridPosition) -> (r: Option<(Vec<GridPosition>, u64)>)
    requires
        maze.wf(),
    ensures
        match r {
            Some((path, cost)) => shortest_walk(maze, path@, from, target) && cost == path@.len() - 1,
            None => !reachable(maze, from, target),
        },
{
    pathfinding::directed::astar::astar(
        &from,
        |p| weighted_neighbors(maze, p),
        |p| distance_estimate(p, &target),
        |p| same_cell(p, &target),
    )
}

/// Manhattan distance heuristic.
pub fn manhattan(a: &GridPosition, b: &GridPosition) -> (r: u32)
    requires
        dist(*a, *b) <= u32::MAX,
    ensures
        r == dist(*a, *b),
{
    distance_estimate(a, b) as u32
}

/// The direction from a cell to the adjacent cell `to`, if they are adjacent.
pub fn direction_between(from: GridPosition, to: GridPosition) -> (r: Option<Direction>)
    ensures
        match r {
            Some(d) => is_ahead(from, d, 1, to),
            None => !adjacent(from, to),
        },
{
    let dx: i64 = to.x as i64 - from.x as i64;
    let dy: i64 = to.y as i64 - from.y as i64;
    if dx == 1 && dy == 0 {
        Some(Direction::Right)
    } else if dx == -1 && dy == 0 {
        Some(Direction::Left)
    } else if dx == 0 && dy == 1 {
        Some(Direction::Down)
    } else if dx == 0 && dy == -1 {
        Some(Direction::Up)
    } else {
        None
    }
}

/// The direction of the first step of a shortest enemy path from `from` to
/// `target`; `None` when `from` is `target` or `target` cannot be reached.
pub fn next_direction_toward(from: GridPosition, target: GridPosition, maze: &MazeMap) -> (r: Option<Direction>)
    requires
        maze.wf(),
    ensures
        first_step_ok(maze, from, target, r),
        r is None <==> (from == target || !reachable(maze, from, target)),
{
    match astar_path(maze, from, target) {
        Some((path, _cost)) => {
            if path.len() < 2 {
                assert(seq![from].last() == from);
                assert(walk_between(maze, seq![from], from, from));
                assert(path@[0] == from && path@.last() == target);
                return None;
            }
            let next = path[1];
            assert(maze.enemy_step(path@[0], path@[1]));
            let d = direction_between(from, next);
            assert(d is Some);
            proof {
                if from == target {
                    assert(walk_between(maze, seq![from], from, target));
                }
            }
            d
        },
        None => None,
    }
}

/// A walk of `n` cells covers a Manhattan distance of at most `n - 1`.
pub proof fn lemma_walk_covers_distance(maze: &MazeMap, w: Seq<GridPosition>)
    requires
        is_walk(maze, w),
    ensures
        dist(w[0], w.last()) <= w.len() - 1,
    decreases w.len(),
{
    if w.len() > 1 {
        let rest = w.subrange(1, w.len() as int);
        assert forall|i: int| 0 <= i < rest.len() - 1 implies maze.enemy_step(
            #[trigger] rest[i],
            rest[i + 1],
        ) by {
            assert(rest[i] == w[i + 1] && rest[i + 1] == w[i + 2]);
            assert(maze.enemy_step(w[i + 1], w[i + 2]));
        }
        lemma_walk_covers_distance(maze, rest);
        assert(maze.enemy_step(w[0], w[1]));
        assert(rest.last() == w.last());
    }
}

/// Where some walk from `a` to `b` makes no detour (as in a corridor free of
/// obstacles), the first step of a shortest walk brings an enemy exactly one
/// cell closer to `b` by Manhattan distance.
pub proof fn lemma_first_step_closes_in(
    maze: &MazeMap,
    a: GridPosition,
    b: GridPosition,
    d: Direction,
    direct: Seq<GridPosition>,
    next: GridPosition,
)
    requires
        walk_between(maze, direct, a, b),
        direct.len() == dist(a, b) + 1,
        starts_shortest(maze, a, b, d),
        is_ahead(a, d, 1, next),
    ensures
        dist(next, b) == dist(a, b) - 1,
{
    let w = choose|w: Seq<GridPosition>|
        #[trigger] shortest_walk(maze, w, a, b) && w.len() >= 2 && is_ahead(a, d, 1, w[1]);
    assert(w[1] == next);
    assert(w.len() <= direct.len());
    let rest = w.subrange(1, w.len() as int);
    assert forall|i: int| 0 <= i < rest.len() - 1 implies maze.enemy_step(
        #[trigger] rest[i],
        rest[i + 1],
    ) by {
        assert(rest[i] == w[i + 1] && rest[i + 1] == w[i + 2]);
        assert(maze.enemy_step(w[i + 1], w[i + 2]));
    }
    lemma_walk_covers_distance(maze, rest);
    assert(rest.last() == w.last());
}

/// When no walk leads from `from` to `target` (the target is walled off),
/// a first step towards it is never chosen.
pub proof fn lemma_walled_off_has_no_step(
    maze: &MazeMap,
    from: GridPosition,
    target: GridPosition,
    r: Option<Direction>,
)
    requires
        !reachable(maze, from, target),
        first_step_ok(maze, from, target, r),
    ensures
        r is None,
{
    if let Some(d) = r {
        let w = choose|w: Seq<GridPosition>|
            #[trigger] shortest_walk(maze, w, from, target) && w.len() >= 2 && is_ahead(from, d, 1, w[1]);
        assert(walk_between(maze, w, from, target));
    }
}

/// The first step of a shortest walk lands on an enemy-walkable cell.
pub proof fn lemma_first_step_is_open(maze: &MazeMap, a: GridPosition, b: GridPosition, d: Direction)
    requires
        starts_shortest(maze, a, b, d),
    ensures
        maze.enemy_walkable_spec(a.x + d.dx(), a.y + d.dy()),
{
    let w = choose|w: Seq<GridPosition>|
        #[trigger] shortest_walk(maze, w, a, b) && w.len() >= 2 && is_ahead(a, d, 1, w[1]);
    assert(maze.enemy_step(w[0], w[1]));
}


/// Cell `c` lies in the rectangle spanned by `a` and `b`.
pub open spec fn in_box(a: GridPosition, b: GridPosition, c: GridPosition) -> bool {
    &&& (a.x <= c.x <= b.x || b.x <= c.x <= a.x)
    &&& (a.y <= c.y <= b.y || b.y <= c.y <= a.y)
}

/// Every cell of the rectangle spanned by `a` and `b` is enemy-walkable.
pub open spec fn open_box(maze: &MazeMap, a: GridPosition, b: GridPosition) -> bool {
    forall|c: GridPosition| #[trigger] in_box(a, b, c) ==> maze.enemy_walkable_at(c)
}

/// In an open rectangle, a walk goes from one corner to the other without
/// a detour.
pub proof fn lemma_open_box_has_direct_walk(maze: &MazeMap, a: GridPosition, b: GridPosition) -> (w: Seq<
    GridPosition,
>)
    requires
        open_box(maze, a, b),
    ensures
        walk_between(maze, w, a, b),
        w.len() == dist(a, b) + 1,
    decreases dist(a, b),
{
    if a == b {
        let w = seq![a];
        assert(w.last() == a);
        w
    } else {
        let n = if a.x < b.x {
            GridPosition { x: (a.x + 1) as i32, y: a.y }
        } else if a.x > b.x {
            GridPosition { x: (a.x - 1) as i32, y: a.y }
        } else if a.y < b.y {
            GridPosition { x: a.x, y: (a.y + 1) as i32 }
        } else {
            GridPosition { x: a.x, y: (a.y - 1) as i32 }
        };
        assert(in_box(a, b, n));
        assert forall|c: GridPosition| #[trigger] in_box(n, b, c) implies maze.enemy_walkable_at(c) by {
            assert(in_box(a, b, c));
        }
        let rest = lemma_open_box_has_direct_walk(maze, n, b);
        let w = seq![a] + rest;
        assert(maze.enemy_step(a, n));
        assert forall|i: int| 0 <= i < w.len() - 1 implies maze.enemy_step(#[trigger] w[i], w[i + 1]) by {
            if i == 0 {
                assert(w[0] == a && w[1] == rest[0]);
            } else {
                assert(w[i] == rest[i - 1] && w[i + 1] == rest[i]);
                assert(maze.enemy_step(rest[i - 1], rest[i]));
            }
        }
        assert(w.last() == rest.last());
        w
    }
}

/// Between two cells of an open rectangle (a corridor free of obstacles),
/// the first step of a shortest walk brings an enemy exactly one cell
/// closer to the target by Manhattan distance.
pub proof fn lemma_open_box_step_closes_in(
    maze: &MazeMap,
    a: GridPosition,
    b: GridPosition,
    d: Direction,
    next: GridPosition,
)
    requires
        open_box(maze, a, b),
        starts_shortest(maze, a, b, d),
        is_ahead(a, d, 1, next),
    ensures
        dist(next, b) == dist(a, b) - 1,
{
    let direct = lemma_open_box_has_direct_walk(maze, a, b);
    lemma_first_step_closes_in(maze, a, b, d, direct, next);
}

} // verus!
