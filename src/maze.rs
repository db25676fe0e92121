//! The maze: a grid of tiles parsed from text, and the walkability rules.

use vstd::prelude::*;

use vstd::string::{StrSliceExecFns, StringExecFns};

use crate::grid::{adjacent, cell_ahead, direction_order, is_ahead, Direction, GridPosition};

verus! {

#[derive(Debug, Clone, Copy, PartialEq, Eq, Structural)]
pub enum TileType {
    Wall,
    Floor,
    Money,
    PenGate,
    PlayerSpawn,
    EnemySpawn,
    WeaponSpawn,
    LuxurySpawn,
}

impl TileType {
    fn from_char(c: char) -> (r: Option<TileType>)
        ensures
            r == tile_of(c),
    {
        match c {
            '#' => Some(TileType::Wall),
            '.' => Some(TileType::Money),
            ' ' => Some(TileType::Floor),
            'P' => Some(TileType::PlayerSpawn),
            'G' => Some(TileType::EnemySpawn),
            'W' => Some(TileType::WeaponSpawn),
            'L' => Some(TileType::LuxurySpawn),
            '-' => Some(TileType::PenGate),
            _ => None,
        }
    }

    /// Floor-like tiles: everything but walls and pen gates.
    pub open spec fn floor_like(self) -> bool {
        !(self is Wall) && !(self is PenGate)
    }

    /// Whether entities can walk on this tile (floor-like).
    pub fn is_walkable_floor(&self) -> (r: bool)
        ensures
            r == self.floor_like(),
    {
        match self {
            TileType::Wall | TileType::PenGate => false,
            _ => true,
        }
    }
}


/// The tile that a character of the maze text stands for.
pub open spec fn tile_of(c: char) -> Option<TileType> {
    if c == '#' {
        Some(TileType::Wall)
    } else if c == '.' {
        Some(TileType::Money)
    } else if c == ' ' {
        Some(TileType::Floor)
    } else if c == 'P' {
        Some(TileType::PlayerSpawn)
    } else if c == 'G' {
        Some(TileType::EnemySpawn)
    } else if c == 'W' {
        Some(TileType::WeaponSpawn)
    } else if c == 'L' {
        Some(TileType::LuxurySpawn)
    } else if c == '-' {
        Some(TileType::PenGate)
    } else {
        None
    }
}

/// A line without the carriage return that ended it, if any.
pub open spec fn strip_cr(line: Seq<char>) -> Seq<char> {
    if line.len() > 0 && line.last() == '\r' {
        line.drop_last()
    } else {
        line
    }
}

/// Splits `t` from index `i` into lines, where `cur` is the line read so far
/// and `done` the lines already complete. A line ends at `\n` (a `\r` just
/// before it is dropped); an empty last line is not a line.
pub open spec fn lines_from(t: Seq<char>, i: int, cur: Seq<char>, done: Seq<Seq<char>>) -> Seq<
    Seq<char>,
>
    decreases t.len() - i,
{
    if i >= t.len() || i < 0 {
        if cur.len() == 0 {
            done
        } else {
            done.push(cur)
        }
    } else if t[i] == '\n' {
        lines_from(t, i + 1, seq![], done.push(strip_cr(cur)))
    } else {
        lines_from(t, i + 1, cur.push(t[i]), done)
    }
}

/// The rows of a maze text.
pub open spec fn text_rows(t: Seq<char>) -> Seq<Seq<char>> {
    lines_from(t, 0, seq![], seq![])
}

/// The length of the longest row.
pub open spec fn max_len(rows: Seq<Seq<char>>) -> nat
    decreases rows.len(),
{
    if rows.len() == 0 {
        0
    } else {
        let m = max_len(rows.drop_last());
        if rows.last().len() > m {
            rows.last().len()
        } else {
            m
        }
    }
}

/// The character at column `x` of row `y`, if there is one.
pub open spec fn char_at(rows: Seq<Seq<char>>, y: int, x: int) -> Option<char> {
    if 0 <= y < rows.len() && 0 <= x < rows[y].len() {
        Some(rows[y][x])
    } else {
        None
    }
}

/// Reading order: row by row, left to right.
pub open spec fn before(y1: int, x1: int, y2: int, x2: int) -> bool {
    y1 < y2 || (y1 == y2 && x1 < x2)
}

pub open spec fn unknown_at(rows: Seq<Seq<char>>, y: int, x: int) -> bool {
    char_at(rows, y, x) is Some && tile_of(char_at(rows, y, x)->0) is None
}

pub open spec fn spawn_at(rows: Seq<Seq<char>>, y: int, x: int) -> bool {
    char_at(rows, y, x) == Some('P')
}

/// A player spawn with another one before it in reading order.
pub open spec fn second_spawn_at(rows: Seq<Seq<char>>, y: int, x: int) -> bool {
    spawn_at(rows, y, x) && exists|y2: int, x2: int|
        #[trigger] spawn_at(rows, y2, x2) && before(y2, x2, y, x)
}

/// A character that makes the text fail to parse.
pub open spec fn bad_at(rows: Seq<Seq<char>>, y: int, x: int) -> bool {
    unknown_at(rows, y, x) || second_spawn_at(rows, y, x)
}

/// No character before (y, x) in reading order makes the text fail.
pub open spec fn clean_before(rows: Seq<Seq<char>>, y: int, x: int) -> bool {
    forall|y2: int, x2: int| before(y2, x2, y, x) ==> !#[trigger] bad_at(rows, y2, x2)
}

pub open spec fn clean(rows: Seq<Seq<char>>) -> bool {
    forall|y: int, x: int| !#[trigger] bad_at(rows, y, x)
}

pub open spec fn has_spawn(rows: Seq<Seq<char>>) -> bool {
    exists|y: int, x: int| #[trigger] spawn_at(rows, y, x)
}

pub open spec fn pos_before(a: GridPosition, b: GridPosition) -> bool {
    before(a.y as int, a.x as int, b.y as int, b.x as int)
}

/// `list` holds, in reading order, every cell of `rows` before (y, x) that shows `c`.
pub open spec fn lists_cells_before(
    list: Seq<GridPosition>,
    rows: Seq<Seq<char>>,
    c: char,
    y: int,
    x: int,
) -> bool {
    &&& forall|i: int, j: int| 0 <= i < j < list.len() ==> pos_before(#[trigger] list[i], #[trigger] list[j])
    &&& forall|p: GridPosition|
        list.contains(p) <==> (char_at(rows, p.y as int, p.x as int) == Some(c) && before(
            p.y as int,
            p.x as int,
            y,
            x,
        ))
}

/// `list` holds, in reading order, every cell of `rows` that shows `c`.
pub open spec fn lists_cells(list: Seq<GridPosition>, rows: Seq<Seq<char>>, c: char) -> bool {
    lists_cells_before(list, rows, c, rows.len() as int, 0)
}

/// The rows of `text`, each as a vector of characters.
fn split_rows(text: &str) -> (r: Vec<Vec<char>>)
    ensures
        r@.len() == text_rows(text@).len(),
        forall|k: int| 0 <= k < r@.len() ==> #[trigger] r@[k]@ == text_rows(text@)[k],
        r@.len() <= text@.len(),
        forall|k: int| 0 <= k < r@.len() ==> #[trigger] r@[k]@.len() <= text@.len(),
{
    let n = text.unicode_len();
    let mut rows: Vec<Vec<char>> = Vec::new();
    let ghost mut done: Seq<Seq<char>> = seq![];
    let mut cur: Vec<char> = Vec::new();
    let mut i: usize = 0;
    while i < n
        invariant
            n == text@.len(),
            0 <= i <= n,
            rows@.len() == done.len(),
            forall|k: int| 0 <= k < done.len() ==> #[trigger] rows@[k]@ == done[k],
            text_rows(text@) == lines_from(text@, i as int, cur@, done),
            done.len() + cur@.len() <= i,
            forall|k: int| 0 <= k < done.len() ==> #[trigger] done[k].len() <= i,
        decreases n - i,
    {
        let c = text.get_char(i);
        if c == '\n' {
            let ghost line = strip_cr(cur@);
            if cur.len() > 0 && cur[cur.len() - 1] == '\r' {
                cur.pop();
            }
            assert(cur@ == line);
            rows.push(cur);
            proof {
                done = done.push(line);
            }
            cur = Vec::new();
        } else {
            cur.push(c);
        }
        i += 1;
    }
    if cur.len() > 0 {
        let ghost line = cur@;
        rows.push(cur);
        proof {
            done = done.push(line);
        }
    }
    rows
}

/// The length of the longest row.
fn widest(rows: &Vec<Vec<char>>) -> (w: usize)
    ensures
        w == max_len(rows@.map_values(|r: Vec<char>| r@)),
{
    let ghost v = rows@.map_values(|r: Vec<char>| r@);
    let mut w: usize = 0;
    let mut k: usize = 0;
    while k < rows.len()
        invariant
            0 <= k <= rows@.len(),
            v == rows@.map_values(|r: Vec<char>| r@),
            w == max_len(v.take(k as int)),
        decreases rows@.len() - k,
    {
        assert(v.take(k + 1).drop_last() == v.take(k as int));
        if rows[k].len() > w {
            w = rows[k].len();
        }
        k += 1;
    }
    assert(v.take(rows@.len() as int) == v);
    w
}

/// The tile at column `x` of row `y` once short rows are padded with floor.
pub open spec fn row_tile(rows: Seq<Seq<char>>, y: int, x: int) -> TileType {
    match char_at(rows, y, x) {
        Some(c) => match tile_of(c) {
            Some(t) => t,
            None => TileType::Floor,
        },
        None => TileType::Floor,
    }
}

/// What is known of the player spawn after reading every cell before (y, x).
pub open spec fn spawn_seen(p: Option<GridPosition>, rows: Seq<Seq<char>>, y: int, x: int) -> bool {
    match p {
        None => forall|y2: int, x2: int| before(y2, x2, y, x) ==> !#[trigger] spawn_at(rows, y2, x2),
        Some(q) => spawn_at(rows, q.y as int, q.x as int) && before(q.y as int, q.x as int, y, x),
    }
}

proof fn lemma_max_len_bounds(rows: Seq<Seq<char>>, bound: int)
    requires
        forall|k: int| 0 <= k < rows.len() ==> #[trigger] rows[k].len() <= bound,
    ensures
        rows.len() > 0 ==> max_len(rows) <= bound,
    decreases rows.len(),
{
    if rows.len() > 0 {
        let init = rows.drop_last();
        assert forall|k: int| 0 <= k < init.len() implies #[trigger] init[k].len() <= bound by {
            assert(init[k] == rows[k]);
        }
        lemma_max_len_bounds(init, bound);
        assert(rows.last() == rows[rows.len() - 1]);
        if init.len() == 0 {
            assert(max_len(init) == 0);
        }
    }
}

/// Appends the cell (x, y) to `list` when its character `ch` is `c`.
fn note_cell(
    list: &mut Vec<GridPosition>,
    Ghost(rows): Ghost<Seq<Seq<char>>>,
    c: char,
    ch: char,
    y: usize,
    x: usize,
)
    requires
        lists_cells_before(old(list)@, rows, c, y as int, x as int),
        char_at(rows, y as int, x as int) == Some(ch),
        y <= i32::MAX,
        x < i32::MAX,
    ensures
        lists_cells_before(final(list)@, rows, c, y as int, x + 1),
{
    let ghost prev = list@;
    if ch == c {
        let p = GridPosition { x: x as i32, y: y as i32 };
        assert(p.x as int == x && p.y as int == y);
        list.push(p);
        assert(list@ == prev.push(p));
        assert forall|i: int, j: int| 0 <= i < j < list@.len() implies pos_before(
            #[trigger] list@[i],
            #[trigger] list@[j],
        ) by {
            if j == list@.len() - 1 {
                assert(prev.contains(prev[i]));
            } else {
                assert(list@[i] == prev[i] && list@[j] == prev[j]);
            }
        }
        assert forall|q: GridPosition|
            list@.contains(q) <==> (char_at(rows, q.y as int, q.x as int) == Some(c) && before(
                q.y as int,
                q.x as int,
                y as int,
                x + 1,
            )) by {
            if q.x as int == x && q.y as int == y {
                assert(q == p);
            }
            if list@.contains(q) {
                let k = choose|k: int| 0 <= k < list@.len() && list@[k] == q;
                if k < prev.len() {
                    assert(prev[k] == q);
                    assert(prev.contains(q));
                } else {
                    assert(q == p);
                }
            }
            if char_at(rows, q.y as int, q.x as int) == Some(c) && before(
                q.y as int,
                q.x as int,
                y as int,
                x + 1,
            ) {
                if q == p {
                    assert(list@[list@.len() - 1] == q);
                } else {
                    assert(prev.contains(q));
                    let k = choose|k: int| 0 <= k < prev.len() && prev[k] == q;
                    assert(list@[k] == q);
                }
            }
        }
    } else {
        assert forall|q: GridPosition|
            list@.contains(q) <==> (char_at(rows, q.y as int, q.x as int) == Some(c) && before(
                q.y as int,
                q.x as int,
                y as int,
                x + 1,
            )) by {
            if q.y == y && q.x == x {
                assert(char_at(rows, q.y as int, q.x as int) == Some(ch));
            }
        }
    }
}

/// Why a maze text fails to parse.
#[derive(Debug, Clone, Copy, PartialEq, Eq, Structural)]
pub enum MazeError {
    Empty,
    TooLarge,
    ZeroWidth,
    UnknownTile { ch: char, x: usize, y: usize },
    MultiplePlayerSpawns { x: usize, y: usize },
    NoPlayerSpawn,
}

/// The decimal digit for `d` below ten.
pub open spec fn digit_char(d: nat) -> char {
    if d == 0 {
        '0'
    } else if d == 1 {
        '1'
    } else if d == 2 {
        '2'
    } else if d == 3 {
        '3'
    } else if d == 4 {
        '4'
    } else if d == 5 {
        '5'
    } else if d == 6 {
        '6'
    } else if d == 7 {
        '7'
    } else if d == 8 {
        '8'
    } else {
        '9'
    }
}

/// `n` written in decimal, without leading zeros.
pub open spec fn decimal(n: nat) -> Seq<char>
    decreases n,
{
    if n < 10 {
        seq![digit_char(n)]
    } else {
        decimal(n / 10).push(digit_char(n % 10))
    }
}

/// `(x, y)` as text.
pub open spec fn coords_text(x: nat, y: nat) -> Seq<char> {
    "("@ + decimal(x) + ", "@ + decimal(y) + ")"@
}

/// The text of a maze error.
pub open spec fn error_text(e: MazeError) -> Seq<char> {
    match e {
        MazeError::Empty => "Empty maze"@,
        MazeError::TooLarge => "Maze too large"@,
        MazeError::ZeroWidth => "Maze has zero width"@,
        MazeError::UnknownTile { ch, x, y } => "Unknown tile character '"@ + seq![ch] + "' at "@
            + coords_text(x as nat, y as nat),
        MazeError::MultiplePlayerSpawns { x, y } => "Multiple player spawns at "@ + coords_text(
            x as nat,
            y as nat,
        ),
        MazeError::NoPlayerSpawn => "No player spawn ('P') found in maze"@,
    }
}

fn digit_text(d: usize) -> (r: &'static str)
    requires
        d < 10,
    ensures
        r@ == seq![digit_char(d as nat)],
{
    proof {
        reveal_strlit("0");
        reveal_strlit("1");
        reveal_strlit("2");
        reveal_strlit("3");
        reveal_strlit("4");
        reveal_strlit("5");
        reveal_strlit("6");
        reveal_strlit("7");
        reveal_strlit("8");
        reveal_strlit("9");
    }
    match d {
        0 => "0",
        1 => "1",
        2 => "2",
        3 => "3",
        4 => "4",
        5 => "5",
        6 => "6",
        7 => "7",
        8 => "8",
        _ => "9",
    }
}

/// Appends `n` in decimal to `s`.
fn append_decimal(s: &mut String, n: usize)
    ensures
        final(s)@ == old(s)@ + decimal(n as nat),
    decreases n,
{
    if n >= 10 {
        append_decimal(s, n / 10);
    }
    s.append(digit_text(n % 10));
    proof {
        if n >= 10 {
            assert(decimal(n as nat) == decimal((n / 10) as nat).push(digit_char((n % 10) as nat)));
        }
    }
    assert(final(s)@ =~= old(s)@ + decimal(n as nat));
}

/// Appends `(x, y)` to `s`.
fn append_coords(s: &mut String, x: usize, y: usize)
    ensures
        final(s)@ == old(s)@ + coords_text(x as nat, y as nat),
{
    s.append("(");
    append_decimal(s, x);
    s.append(", ");
    append_decimal(s, y);
    s.append(")");
    assert(final(s)@ =~= old(s)@ + coords_text(x as nat, y as nat));
}

/// Relies on std's `ToString` for `char`: the text of the one character.
#[verifier::external_body]
fn char_text(c: char) -> (r: String)
    ensures
        r@ == seq![c],
{
    c.to_string()
}

impl MazeError {
    /// A description of the error for the maze author, with the position of
    /// the offending character where there is one.
    pub fn message(&self) -> (r: String)
        ensures
            r@ == error_text(*self),
    {
        match self {
            MazeError::Empty => String::from_str("Empty maze"),
            MazeError::TooLarge => String::from_str("Maze too large"),
            MazeError::ZeroWidth => String::from_str("Maze has zero width"),
            MazeError::UnknownTile { ch, x, y } => {
                let mut s = String::from_str("Unknown tile character '");
                let c = char_text(*ch);
                s.append(c.as_str());
                s.append("' at ");
                append_coords(&mut s, *x, *y);
                assert(s@ =~= error_text(*self));
                s
            },
            MazeError::MultiplePlayerSpawns { x, y } => {
                let mut s = String::from_str("Multiple player spawns at ");
                append_coords(&mut s, *x, *y);
                s
            },
            MazeError::NoPlayerSpawn => String::from_str("No player spawn ('P') found in maze"),
        }
    }
}

/// What parsing the maze text `t` must give: an error for empty text, for
/// a grid too large for cell coordinates, for rows that are all empty, for the first character in reading order that
/// is unknown or a second player spawn, or for a text without a player
/// spawn; otherwise the maze that the rows describe.
pub open spec fn parse_outcome(t: Seq<char>, r: Result<MazeMap, MazeError>) -> bool {
    let rows = text_rows(t);
    &&& rows.len() == 0 ==> r == Err::<MazeMap, MazeError>(MazeError::Empty)
    &&& rows.len() > 0 && !fits(rows) ==> r == Err::<MazeMap, MazeError>(MazeError::TooLarge)
    &&& rows.len() > 0 && fits(rows) && max_len(rows) == 0 ==> r == Err::<MazeMap, MazeError>(
        MazeError::ZeroWidth,
    )
    &&& match r {
        Ok(m) => clean(rows) && has_spawn(rows) && m.describes(rows),
        Err(MazeError::Empty) => rows.len() == 0,
        Err(MazeError::TooLarge) => rows.len() > 0 && !fits(rows),
        Err(MazeError::ZeroWidth) => rows.len() > 0 && fits(rows) && max_len(rows) == 0,
        Err(MazeError::UnknownTile { ch, x, y }) => {
            &&& fits(rows)
            &&& max_len(rows) > 0
            &&& unknown_at(rows, y as int, x as int)
            &&& char_at(rows, y as int, x as int) == Some(ch)
            &&& clean_before(rows, y as int, x as int)
        },
        Err(MazeError::MultiplePlayerSpawns { x, y }) => {
            &&& fits(rows)
            &&& max_len(rows) > 0
            &&& second_spawn_at(rows, y as int, x as int)
            &&& clean_before(rows, y as int, x as int)
        },
        Err(MazeError::NoPlayerSpawn) => fits(rows) && max_len(rows) > 0 && clean(rows) && !has_spawn(
            rows,
        ),
    }
}

/// Every cell of the rows has coordinates that fit a `GridPosition`.
pub open spec fn fits(rows: Seq<Seq<char>>) -> bool {
    rows.len() <= i32::MAX && max_len(rows) <= i32::MAX
}

/// Every character of the rows stands for a tile.
pub open spec fn all_known(rows: Seq<Seq<char>>) -> bool {
    forall|y: int, x: int| !#[trigger] unknown_at(rows, y, x)
}

proof fn lemma_cell_gives_width(rows: Seq<Seq<char>>, y: int, x: int)
    requires
        char_at(rows, y, x) is Some,
    ensures
        rows.len() > 0,
        max_len(rows) > 0,
{
    lemma_max_len_is_max(rows);
    assert(rows[y].len() <= max_len(rows));
}

proof fn lemma_max_len_is_max(rows: Seq<Seq<char>>)
    ensures
        forall|k: int| 0 <= k < rows.len() ==> #[trigger] rows[k].len() <= max_len(rows),
    decreases rows.len(),
{
    if rows.len() > 0 {
        let init = rows.drop_last();
        lemma_max_len_is_max(init);
        assert forall|k: int| 0 <= k < rows.len() implies #[trigger] rows[k].len() <= max_len(rows) by {
            if k < rows.len() - 1 {
                assert(init[k] == rows[k]);
            }
        }
    }
}

/// A maze text whose characters all stand for tiles, whose cells have
/// coordinates that fit a `GridPosition`, and which holds exactly one player
/// spawn parses, and its player spawn is where that `P` stands.
pub proof fn lemma_single_spawn_parses(t: Seq<char>, r: Result<MazeMap, MazeError>, x: int, y: int)
    requires
        parse_outcome(t, r),
        fits(text_rows(t)),
        all_known(text_rows(t)),
        spawn_at(text_rows(t), y, x),
        forall|y2: int, x2: int| #[trigger] spawn_at(text_rows(t), y2, x2) ==> y2 == y && x2 == x,
    ensures
        r is Ok,
        r->Ok_0.player_spawn.x == x,
        r->Ok_0.player_spawn.y == y,
{
    let rows = text_rows(t);
    lemma_cell_gives_width(rows, y, x);
    assert forall|y2: int, x2: int| !#[trigger] bad_at(rows, y2, x2) by {
        assert(!unknown_at(rows, y2, x2));
        if second_spawn_at(rows, y2, x2) {
            let (y3, x3) = choose|y3: int, x3: int| #[trigger] spawn_at(rows, y3, x3) && before(y3, x3, y2, x2);
            assert(y3 == y && x3 == x);
        }
    }
    assert(spawn_at(rows, y, x));
    match r {
        Err(MazeError::UnknownTile { ch, x: ex, y: ey }) => {
            assert(bad_at(rows, ey as int, ex as int));
        },
        Err(MazeError::MultiplePlayerSpawns { x: ex, y: ey }) => {
            assert(bad_at(rows, ey as int, ex as int));
        },
        _ => {},
    }
}

/// A maze text whose characters all stand for tiles, whose cells have
/// coordinates that fit a `GridPosition`, with at least one character and no
/// player spawn, fails for want of a player spawn.
pub proof fn lemma_no_spawn_fails(t: Seq<char>, r: Result<MazeMap, MazeError>, x: int, y: int)
    requires
        parse_outcome(t, r),
        fits(text_rows(t)),
        all_known(text_rows(t)),
        char_at(text_rows(t), y, x) is Some,
        forall|y2: int, x2: int| !#[trigger] spawn_at(text_rows(t), y2, x2),
    ensures
        r == Err::<MazeMap, MazeError>(MazeError::NoPlayerSpawn),
{
    let rows = text_rows(t);
    lemma_cell_gives_width(rows, y, x);
    match r {
        Ok(m) => {
            assert(spawn_at(rows, m.player_spawn.y as int, m.player_spawn.x as int));
        },
        Err(MazeError::UnknownTile { ch, x: ex, y: ey }) => {
            assert(!unknown_at(rows, ey as int, ex as int));
        },
        Err(MazeError::MultiplePlayerSpawns { x: ex, y: ey }) => {
            assert(!spawn_at(rows, ey as int, ex as int));
        },
        _ => {},
    }
}

/// A maze text whose characters all stand for tiles, whose cells have
/// coordinates that fit a `GridPosition`, and which holds two player spawns
/// fails with a multiple-spawn error at the second one.
pub proof fn lemma_two_spawns_fail(
    t: Seq<char>,
    r: Result<MazeMap, MazeError>,
    x1: int,
    y1: int,
    x2: int,
    y2: int,
)
    requires
        parse_outcome(t, r),
        fits(text_rows(t)),
        all_known(text_rows(t)),
        spawn_at(text_rows(t), y1, x1),
        spawn_at(text_rows(t), y2, x2),
        before(y1, x1, y2, x2),
        forall|y3: int, x3: int|
            #[trigger] spawn_at(text_rows(t), y3, x3) ==> (y3 == y1 && x3 == x1) || (y3 == y2 && x3 == x2),
    ensures
        r == Err::<MazeMap, MazeError>(MazeError::MultiplePlayerSpawns { x: x2 as usize, y: y2 as usize }),
{
    let rows = text_rows(t);
    lemma_cell_gives_width(rows, y1, x1);
    assert(second_spawn_at(rows, y2, x2));
    assert(bad_at(rows, y2, x2));
    assert(!clean(rows));
    assert(0 <= y2 < rows.len() && 0 <= x2 < rows[y2].len());
    match r {
        Err(MazeError::UnknownTile { ch, x: ex, y: ey }) => {
            assert(!unknown_at(rows, ey as int, ex as int));
        },
        Err(MazeError::MultiplePlayerSpawns { x: ex, y: ey }) => {
            let (ya, xa) = choose|ya: int, xa: int| #[trigger] spawn_at(rows, ya, xa) && before(ya, xa, ey as int, ex as int);
            assert(spawn_at(rows, ey as int, ex as int));
            if !(ey as int == y2 && ex as int == x2) {
                assert(ey as int == y1 && ex as int == x1);
                assert(ya == y1 && xa == x1 || ya == y2 && xa == x2);
            }
        },
        Err(MazeError::NoPlayerSpawn) => {
            assert(bad_at(rows, y2, x2));
        },
        _ => {},
    }
}

/// The parsed maze grid and its spawn positions.
#[derive(Debug, Clone)]
pub struct MazeMap {
    pub width: usize,
    pub height: usize,
    pub tiles: Vec<Vec<TileType>>,
    pub player_spawn: GridPosition,
    pub enemy_spawns: Vec<GridPosition>,
    pub weapon_spawns: Vec<GridPosition>,
    pub luxury_spawns: Vec<GridPosition>,
}

impl MazeMap {
    /// This maze is the one that the rows `rows` of a maze text describe.
    pub open spec fn describes(&self, rows: Seq<Seq<char>>) -> bool {
        &&& self.wf()
        &&& self.height == rows.len()
        &&& self.width == max_len(rows)
        &&& forall|y: int, x: int|
            0 <= y < self.height && 0 <= x < self.width ==> #[trigger] self.tile_spec(x, y) == Some(
                row_tile(rows, y, x),
            )
        &&& spawn_at(rows, self.player_spawn.y as int, self.player_spawn.x as int)
        &&& lists_cells(self.enemy_spawns@, rows, 'G')
        &&& lists_cells(self.weapon_spawns@, rows, 'W')
        &&& lists_cells(self.luxury_spawns@, rows, 'L')
    }

    /// Parses a maze text: one row per line, one tile per character.
    /// Rows shorter than the longest are padded with floor.
    pub fn parse(text: &str) -> (r: Result<MazeMap, MazeError>)
        ensures
            parse_outcome(text@, r),
    {
        let lines = split_rows(text);
        let ghost rows = text_rows(text@);
        assert(lines@.map_values(|r: Vec<char>| r@) =~= rows);
        if lines.len() == 0 {
            return Err(MazeError::Empty);
        }
        if lines.len() > i32::MAX as usize {
            return Err(MazeError::TooLarge);
        }
        let width = widest(&lines);
        if width > i32::MAX as usize {
            return Err(MazeError::TooLarge);
        }
        if width == 0 {
            return Err(MazeError::ZeroWidth);
        }
        proof {
            lemma_max_len_is_max(rows);
        }
        let height = lines.len();
        let mut tiles: Vec<Vec<TileType>> = Vec::new();
        let mut player: Option<GridPosition> = None;
        let mut enemy_spawns: Vec<GridPosition> = Vec::new();
        let mut weapon_spawns: Vec<GridPosition> = Vec::new();
        let mut luxury_spawns: Vec<GridPosition> = Vec::new();
        let mut y: usize = 0;
        while y < height
            invariant
                rows == text_rows(text@),
                height == lines@.len() == rows.len(),
                height <= i32::MAX,
                1 <= width <= i32::MAX,
                width == max_len(rows),
                forall|k: int| 0 <= k < rows.len() ==> #[trigger] lines@[k]@ == rows[k],
                forall|k: int| 0 <= k < rows.len() ==> #[trigger] rows[k].len() <= width,
                0 <= y <= height,
                tiles@.len() == y,
                forall|k: int| 0 <= k < y ==> #[trigger] tiles@[k]@.len() == width,
                forall|k: int, x: int|
                    0 <= k < y && 0 <= x < width ==> #[trigger] tiles@[k]@[x] == row_tile(rows, k, x),
                clean_before(rows, y as int, 0),
                spawn_seen(player, rows, y as int, 0),
                lists_cells_before(enemy_spawns@, rows, 'G', y as int, 0),
                lists_cells_before(weapon_spawns@, rows, 'W', y as int, 0),
                lists_cells_before(luxury_spawns@, rows, 'L', y as int, 0),
            decreases height - y,
        {
            let line = &lines[y];
            let mut row: Vec<TileType> = Vec::new();
            let mut x: usize = 0;
            while x < line.len()
                invariant
                    rows == text_rows(text@),
                    height == lines@.len() == rows.len(),
                    height <= i32::MAX,
                    1 <= width <= i32::MAX,
                    width == max_len(rows),
                    forall|k: int| 0 <= k < rows.len() ==> #[trigger] lines@[k]@ == rows[k],
                    forall|k: int| 0 <= k < rows.len() ==> #[trigger] rows[k].len() <= width,
                    0 <= y < height,
                    line@ == rows[y as int],
                    0 <= x <= line@.len(),
                    row@.len() == x,
                    forall|x2: int| 0 <= x2 < x ==> #[trigger] row@[x2] == row_tile(rows, y as int, x2),
                    clean_before(rows, y as int, x as int),
                    spawn_seen(player, rows, y as int, x as int),
                    lists_cells_before(enemy_spawns@, rows, 'G', y as int, x as int),
                    lists_cells_before(weapon_spawns@, rows, 'W', y as int, x as int),
                    lists_cells_before(luxury_spawns@, rows, 'L', y as int, x as int),
                decreases line@.len() - x,
            {
                let ch = line[x];
                assert(char_at(rows, y as int, x as int) == Some(ch));
                let tile = match TileType::from_char(ch) {
                    Some(t) => t,
                    None => {
                        assert(unknown_at(rows, y as int, x as int));
                        return Err(MazeError::UnknownTile { ch, x, y });
                    },
                };
                if tile == TileType::PlayerSpawn {
                    match player {
                        Some(q) => {
                            assert(spawn_at(rows, q.y as int, q.x as int));
                            assert(second_spawn_at(rows, y as int, x as int));
                            return Err(MazeError::MultiplePlayerSpawns { x, y });
                        },
                        None => {
                            assert(!second_spawn_at(rows, y as int, x as int));
                            let p = GridPosition { x: x as i32, y: y as i32 };
                            player = Some(p);
                        },
                    }
                }
                assert(!bad_at(rows, y as int, x as int));
                assert forall|y2: int, x2: int|
                    before(y2, x2, y as int, x + 1) implies !#[trigger] bad_at(rows, y2, x2) by {
                    if !(y2 == y && x2 == x) {
                        assert(before(y2, x2, y as int, x as int));
                    }
                }
                if player.is_none() {
                    assert forall|y2: int, x2: int|
                        before(y2, x2, y as int, x + 1) implies !#[trigger] spawn_at(rows, y2, x2) by {
                        if !(y2 == y && x2 == x) {
                            assert(before(y2, x2, y as int, x as int));
                        }
                    }
                }
                note_cell(&mut enemy_spawns, Ghost(rows), 'G', ch, y, x);
                note_cell(&mut weapon_spawns, Ghost(rows), 'W', ch, y, x);
                note_cell(&mut luxury_spawns, Ghost(rows), 'L', ch, y, x);
                row.push(tile);
                x += 1;
            }
            while row.len() < width
                invariant
                    0 <= y < height,
                    height == rows.len(),
                    line@ == rows[y as int],
                    line@.len() <= row@.len() <= width,
                    forall|x2: int| 0 <= x2 < row@.len() ==> #[trigger] row@[x2] == row_tile(rows, y as int, x2),
                decreases width - row@.len(),
            {
                row.push(TileType::Floor);
            }
            tiles.push(row);
            assert forall|y2: int, x2: int|
                before(y2, x2, y + 1, 0) implies !#[trigger] bad_at(rows, y2, x2) by {
                if y2 < y || (y2 == y && x2 < line@.len()) {
                    assert(before(y2, x2, y as int, line@.len() as int));
                }
            }
            if player.is_none() {
                assert forall|y2: int, x2: int|
                    before(y2, x2, y + 1, 0) implies !#[trigger] spawn_at(rows, y2, x2) by {
                    if y2 < y || (y2 == y && x2 < line@.len()) {
                        assert(before(y2, x2, y as int, line@.len() as int));
                    }
                }
            }
            assert(lists_cells_before(enemy_spawns@, rows, 'G', y + 1, 0));
            assert(lists_cells_before(weapon_spawns@, rows, 'W', y + 1, 0));
            assert(lists_cells_before(luxury_spawns@, rows, 'L', y + 1, 0));
            y += 1;
        }
        assert forall|y2: int, x2: int| !#[trigger] bad_at(rows, y2, x2) by {
            if 0 <= y2 < rows.len() {
                assert(before(y2, x2, height as int, 0));
            }
        }
        match player {
            None => {
                assert forall|y2: int, x2: int| !#[trigger] spawn_at(rows, y2, x2) by {
                    if 0 <= y2 < rows.len() {
                        assert(before(y2, x2, height as int, 0));
                    }
                }
                Err(MazeError::NoPlayerSpawn)
            },
            Some(player_spawn) => {
                let m = MazeMap {
                    width,
                    height,
                    tiles,
                    player_spawn,
                    enemy_spawns,
                    weapon_spawns,
                    luxury_spawns,
                };
                Ok(m)
            },
        }
    }

    /// The tile at column `x`, row `y`, or `None` outside the grid.
    pub open spec fn tile_spec(&self, x: int, y: int) -> Option<TileType> {
        if 0 <= y < self.tiles@.len() && 0 <= x < self.tiles@[y]@.len() {
            Some(self.tiles@[y]@[x])
        } else {
            None
        }
    }

    /// General walkability: floor-like tiles and pen gates.
    pub open spec fn walkable_spec(&self, x: int, y: int) -> bool {
        match self.tile_spec(x, y) {
            Some(t) => t.floor_like() || t is PenGate,
            None => false,
        }
    }

    /// Player walkability: pen gates block the player.
    pub open spec fn player_walkable_spec(&self, x: int, y: int) -> bool {
        match self.tile_spec(x, y) {
            Some(t) => t.floor_like(),
            None => false,
        }
    }

    /// Enemy walkability: the same as general walkability.
    pub open spec fn enemy_walkable_spec(&self, x: int, y: int) -> bool {
        self.walkable_spec(x, y)
    }

    pub open spec fn enemy_walkable_at(&self, p: GridPosition) -> bool {
        self.enemy_walkable_spec(p.x as int, p.y as int)
    }

    /// Enemy moves: from a cell to an enemy-walkable cell next to it.
    pub open spec fn enemy_step(&self, a: GridPosition, b: GridPosition) -> bool {
        adjacent(a, b) && self.enemy_walkable_at(b)
    }

    /// A grid whose rows all have `width` tiles and whose cells all have
    /// coordinates that fit a `GridPosition`.
    pub open spec fn wf(&self) -> bool {
        &&& self.tiles@.len() == self.height
        &&& 1 <= self.height <= i32::MAX
        &&& 1 <= self.width <= i32::MAX
        &&& forall|y: int| 0 <= y < self.height ==> #[trigger] self.tiles@[y]@.len() == self.width
    }

    /// Get the tile type at a position, or `None` if out of bounds.
    pub fn tile_at(&self, pos: GridPosition) -> (r: Option<TileType>)
        ensures
            r == self.tile_spec(pos.x as int, pos.y as int),
    {
        if pos.x < 0 || pos.y < 0 {
            return None;
        }
        let x = pos.x as usize;
        let y = pos.y as usize;
        if y < self.tiles.len() && x < self.tiles[y].len() {
            Some(self.tiles[y][x])
        } else {
            None
        }
    }

    /// Whether a cell is walkable. Out-of-bounds is not walkable.
    pub fn is_walkable(&self, pos: GridPosition) -> (r: bool)
        ensures
            r == self.walkable_spec(pos.x as int, pos.y as int),
    {
        match self.tile_at(pos) {
            Some(t) => t.is_walkable_floor() || t == TileType::PenGate,
            None => false,
        }
    }

    /// Whether the player may stand on a cell (pen gates are not walkable for the player).
    pub fn is_walkable_for_player(&self, pos: GridPosition) -> (r: bool)
        ensures
            r == self.player_walkable_spec(pos.x as int, pos.y as int),
    {
        match self.tile_at(pos) {
            Some(t) => t.is_walkable_floor(),
            None => false,
        }
    }

    /// Whether an enemy may stand on a cell (pen gates are walkable for enemies).
    pub fn is_walkable_for_enemy(&self, pos: GridPosition) -> (r: bool)
        ensures
            r == self.enemy_walkable_spec(pos.x as int, pos.y as int),
    {
        self.is_walkable(pos)
    }

    /// The cell one step from `pos` in direction `d`, as a one-cell
    /// sequence if its coordinates fit and an enemy may walk there, else empty.
    pub open spec fn neighbor_if_open(&self, pos: GridPosition, d: Direction) -> Seq<GridPosition> {
        let x = pos.x + d.dx();
        let y = pos.y + d.dy();
        if i32::MIN <= x <= i32::MAX && i32::MIN <= y <= i32::MAX && self.enemy_walkable_spec(x, y) {
            seq![GridPosition { x: x as i32, y: y as i32 }]
        } else {
            seq![]
        }
    }

    /// The enemy-walkable neighbours of `pos` among the first `i` directions
    /// of the order up, down, left, right.
    pub open spec fn neighbors_upto(&self, pos: GridPosition, i: int) -> Seq<GridPosition>
        decreases i,
    {
        if i <= 0 {
            seq![]
        } else {
            self.neighbors_upto(pos, i - 1) + self.neighbor_if_open(pos, direction_order()[i - 1])
        }
    }

    /// The enemy-walkable neighbours of `pos`, in the order up, down, left, right.
    pub open spec fn open_neighbors(&self, pos: GridPosition) -> Seq<GridPosition> {
        self.neighbor_if_open(pos, Direction::Up) + self.neighbor_if_open(pos, Direction::Down)
            + self.neighbor_if_open(pos, Direction::Left) + self.neighbor_if_open(pos, Direction::Right)
    }

    /// The enemy-walkable cells next to `pos`, in the order up, down, left, right.
    pub fn enemy_neighbors(&self, pos: GridPosition) -> (r: Vec<GridPosition>)
        ensures
            r@ == self.open_neighbors(pos),
            r@.len() <= 4,
            r@.no_duplicates(),
            forall|b: GridPosition| r@.contains(b) <==> self.enemy_step(pos, b),
    {
        let mut r: Vec<GridPosition> = Vec::new();
        let dirs = [Direction::Up, Direction::Down, Direction::Left, Direction::Right];
        let mut i: usize = 0;
        while i < 4
            invariant
                0 <= i <= 4,
                r@.len() <= i,
                dirs@ == direction_order(),
                r@ == self.neighbors_upto(pos, i as int),
                r@.no_duplicates(),
                forall|b: GridPosition|
                    r@.contains(b) <==> (exists|j: int|
                        0 <= j < i && is_ahead(pos, #[trigger] dirs@[j], 1, b)
                            && self.enemy_walkable_at(b)),
            decreases 4 - i,
        {
            let d = dirs[i];
            if let Some(c) = cell_ahead(pos, d, 1) {
                if self.is_walkable_for_enemy(c) {
                    let ghost before = r@;
                    assert(!before.contains(c)) by {
                        if before.contains(c) {
                            let j = choose|j: int|
                                0 <= j < i && is_ahead(pos, #[trigger] dirs@[j], 1, c)
                                    && self.enemy_walkable_at(c);
                            assert(dirs@[j] != dirs@[i as int]);
                        }
                    }
                    assert(self.neighbor_if_open(pos, d) == seq![c]);
                    r.push(c);
                    assert(r@ =~= self.neighbors_upto(pos, i + 1));
                    assert forall|b: GridPosition|
                        r@.contains(b) <==> (exists|j: int|
                            0 <= j < i + 1 && is_ahead(pos, #[trigger] dirs@[j], 1, b)
                                && self.enemy_walkable_at(b)) by {
                        assert(r@ == before.push(c));
                        if r@.contains(b) && b != c {
                            let k = choose|k: int| 0 <= k < r@.len() && r@[k] == b;
                            assert(before[k] == b);
                            assert(before.contains(b));
                        }
                        if b == c {
                            assert(r@[r@.len() - 1] == b);
                            assert(is_ahead(pos, dirs@[i as int], 1, b));
                        }
                        if exists|j: int|
                            0 <= j < i + 1 && is_ahead(pos, #[trigger] dirs@[j], 1, b)
                                && self.enemy_walkable_at(b) {
                            let j = choose|j: int|
                                0 <= j < i + 1 && is_ahead(pos, #[trigger] dirs@[j], 1, b)
                                    && self.enemy_walkable_at(b);
                            if j < i {
                                assert(before.contains(b));
                                let k = choose|k: int| 0 <= k < before.len() && before[k] == b;
                                assert(r@[k] == b);
                            } else {
                                assert(b == c);
                                assert(r@[r@.len() - 1] == b);
                            }
                        }
                    }
                } else {
                    assert(self.neighbor_if_open(pos, d) =~= Seq::<GridPosition>::empty());
                    assert(r@ =~= self.neighbors_upto(pos, i + 1));
                    assert forall|b: GridPosition|
                        r@.contains(b) <==> (exists|j: int|
                            0 <= j < i + 1 && is_ahead(pos, #[trigger] dirs@[j], 1, b)
                                && self.enemy_walkable_at(b)) by {
                        if is_ahead(pos, dirs@[i as int], 1, b) {
                            assert(b == c);
                        }
                    }
                }
            } else {
                assert(self.neighbor_if_open(pos, d) =~= Seq::<GridPosition>::empty());
                assert(r@ =~= self.neighbors_upto(pos, i + 1));
                assert forall|b: GridPosition|
                    r@.contains(b) <==> (exists|j: int|
                        0 <= j < i + 1 && is_ahead(pos, #[trigger] dirs@[j], 1, b)
                            && self.enemy_walkable_at(b)) by {
                    if is_ahead(pos, dirs@[i as int], 1, b) {
                        assert(false);
                    }
                }
            }
            i += 1;
        }
        assert(r@ =~= self.open_neighbors(pos)) by {
            reveal_with_fuel(MazeMap::neighbors_upto, 5);
        }
        assert forall|b: GridPosition| r@.contains(b) <==> self.enemy_step(pos, b) by {
            if self.enemy_step(pos, b) {
                lemma_adjacent_has_direction(pos, b);
            }
        }
        r
    }
}

/// Each cell next to `a` lies one step from it in one of the four directions.
pub proof fn lemma_adjacent_has_direction(a: GridPosition, b: GridPosition)
    requires
        adjacent(a, b),
    ensures
        exists|j: int| 0 <= j < 4 && is_ahead(a, #[trigger] direction_order()[j], 1, b),
{
    if b.y == a.y - 1 {
        assert(is_ahead(a, direction_order()[0], 1, b));
    } else if b.y == a.y + 1 {
        assert(is_ahead(a, direction_order()[1], 1, b));
    } else if b.x == a.x - 1 {
        assert(is_ahead(a, direction_order()[2], 1, b));
    } else {
        assert(is_ahead(a, direction_order()[3], 1, b));
    }
}


/// A pen gate lets enemies through and stops the player, in any maze.
pub proof fn lemma_pen_gate_asymmetry(maze: &MazeMap, x: int, y: int)
    requires
        maze.tile_spec(x, y) == Some(TileType::PenGate),
    ensures
        maze.enemy_walkable_spec(x, y),
        maze.walkable_spec(x, y),
        !maze.player_walkable_spec(x, y),
{
}

/// No cell outside the grid is walkable, under any of the three rules.
pub proof fn lemma_out_of_bounds_blocked(maze: &MazeMap, x: int, y: int)
    requires
        maze.wf(),
        x < 0 || y < 0 || x >= maze.width || y >= maze.height,
    ensures
        maze.tile_spec(x, y) is None,
        !maze.walkable_spec(x, y),
        !maze.player_walkable_spec(x, y),
        !maze.enemy_walkable_spec(x, y),
{
    if 0 <= y < maze.height {
        assert(maze.tiles@[y]@.len() == maze.width);
    }
}

/// Width and height of a tile in world units.
pub const TILE_SIZE: i64 = 32;

/// The world coordinates of the centre of a cell: the grid's centre is the
/// origin and the world's y axis points up.
pub fn grid_to_world(pos: GridPosition, maze_width: usize, maze_height: usize) -> (r: (i64, i64))
    requires
        maze_width <= i32::MAX,
        maze_height <= i32::MAX,
    ensures
        r.0 == pos.x * TILE_SIZE + TILE_SIZE / 2 - maze_width * TILE_SIZE / 2,
        r.1 == -(pos.y * TILE_SIZE + TILE_SIZE / 2 - maze_height * TILE_SIZE / 2),
{
    let half_w: i64 = maze_width as i64 * TILE_SIZE / 2;
    let half_h: i64 = maze_height as i64 * TILE_SIZE / 2;
    (
        pos.x as i64 * TILE_SIZE + TILE_SIZE / 2 - half_w,
        -(pos.y as i64 * TILE_SIZE + TILE_SIZE / 2 - half_h),
    )
}

} // verus!
