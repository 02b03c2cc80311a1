//! The built-in levels and the character grids they are written in.
//!
//! In a grid `1` is a normal brick, `2` an armored one, `X` an indestructible
//! one, and every other character is an empty cell. Adding a level touches
//! this file only.

use vstd::prelude::*;

verus! {

/// Brick footprint in playfield pixels.
pub const BRICK_WIDTH: i64 = 52;

pub const BRICK_HEIGHT: i64 = 22;

/// What a brick is made of.
#[derive(Debug, Clone, Copy, PartialEq, Eq, Structural)]
pub enum BrickKind {
    Normal,
    Armored,
    Indestructible,
}

/// One brick to spawn: the top-left corner of its cell in pixels from the
/// grid's own origin, and its kind.
#[derive(Debug, Clone, Copy, PartialEq, Eq, Structural)]
pub struct BrickSpawn {
    pub x: i64,
    pub y: i64,
    pub kind: BrickKind,
}

/// Simple rows of normal bricks.
pub const LEVEL_1: [&'static str; 4] = [
    "11111111111111",
    "11111111111111",
    "11111111111111",
    "11111111111111",
];

/// Introduces armored bricks.
pub const LEVEL_2: [&'static str; 5] = [
    "22222222222222",
    "11111111111111",
    "11111111111111",
    "22222222222222",
    "11111111111111",
];

/// Indestructible bricks wall in a corridor with a clear lane in its middle.
pub const LEVEL_3: [&'static str; 6] = [
    "XXXXXXXXXXXXXX",
    "X111111111111X",
    "X122222222221X",
    "X1..........1X",
    "X111111111111X",
    "XXXXXXXXXXXXXX",
];

/// Number of built-in levels.
pub const LEVEL_COUNT: usize = 3;

/// The characters of each row of a grid.
pub open spec fn grid_text(grid: Seq<&str>) -> Seq<Seq<char>> {
    grid.map_values(|line: &str| line@)
}

/// The rows of built-in level `index`, in play order.
pub open spec fn level_text(index: int) -> Seq<Seq<char>> {
    if index == 0 {
        grid_text(LEVEL_1@)
    } else if index == 1 {
        grid_text(LEVEL_2@)
    } else {
        grid_text(LEVEL_3@)
    }
}

/// What a grid character stands for.
pub open spec fn cell_kind(ch: char) -> Option<BrickKind> {
    if ch == '1' {
        Some(BrickKind::Normal)
    } else if ch == '2' {
        Some(BrickKind::Armored)
    } else if ch == 'X' {
        Some(BrickKind::Indestructible)
    } else {
        None
    }
}

/// The spawn of a brick of kind `kind` in column `col` of row `row`.
pub open spec fn spawn_at(row: int, col: int, kind: BrickKind) -> BrickSpawn {
    BrickSpawn { x: (col * BRICK_WIDTH) as i64, y: (row * BRICK_HEIGHT) as i64, kind }
}

/// The spawns of row `row`, left to right.
pub open spec fn row_spawns(line: Seq<char>, row: int) -> Seq<BrickSpawn>
    decreases line.len(),
{
    if line.len() == 0 {
        Seq::empty()
    } else {
        let before = row_spawns(line.drop_last(), row);
        match cell_kind(line.last()) {
            Some(kind) => before.push(spawn_at(row, line.len() - 1, kind)),
            None => before,
        }
    }
}

/// The spawns of a whole grid, row by row from the top.
pub open spec fn level_spawns(grid: Seq<Seq<char>>) -> Seq<BrickSpawn>
    decreases grid.len(),
{
    if grid.len() == 0 {
        Seq::empty()
    } else {
        level_spawns(grid.drop_last()) + row_spawns(grid.last(), grid.len() - 1)
    }
}

/// Every pixel coordinate of the grid fits the type that holds it.
pub open spec fn grid_fits(grid: Seq<Seq<char>>) -> bool {
    &&& grid.len() * BRICK_HEIGHT <= i64::MAX
    &&& forall|row: int| 0 <= row < grid.len() ==> (#[trigger] grid[row]).len() * BRICK_WIDTH <= i64::MAX
}

/// The kind of brick a grid character spawns, if any.
fn grid_cell(ch: char) -> (kind: Option<BrickKind>)
    ensures
        kind == cell_kind(ch),
{
    match ch {
        '1' => Some(BrickKind::Normal),
        '2' => Some(BrickKind::Armored),
        'X' => Some(BrickKind::Indestructible),
        _ => None,
    }
}

/// Turns a grid into brick spawns in reading order, skipping empty cells.
pub fn parse_level(grid: &[&str]) -> (spawns: Vec<BrickSpawn>)
    requires
        grid_fits(grid_text(grid@)),
    ensures
        spawns@ == level_spawns(grid_text(grid@)),
{
    let ghost text = grid_text(grid@);
    let mut spawns: Vec<BrickSpawn> = Vec::new();
    let mut row: usize = 0;
    while row < grid.len()
        invariant
            row <= grid@.len(),
            text == grid_text(grid@),
            grid_fits(text),
            spawns@ == level_spawns(text.take(row as int)),
        decreases grid@.len() - row,
    {
        let line = grid[row];
        let ghost above = spawns@;
        assert(text[row as int] == line@);
        let mut col: i64 = 0;
        for ch in cells: line.chars()
            invariant
                cells.seq() == line@,
                col == cells.index(),
                row < grid@.len(),
                text == grid_text(grid@),
                text.len() == grid@.len(),
                text[row as int] == line@,
                grid_fits(text),
                spawns@ == above + row_spawns(line@.take(col as int), row as int),
        {
            proof {
                let seen = line@.take(col + 1);
                assert(seen.drop_last() == line@.take(col as int));
                assert(seen.last() == ch);
                assert(line@.len() * BRICK_WIDTH <= i64::MAX);
                assert(col * BRICK_WIDTH <= line@.len() * BRICK_WIDTH) by (nonlinear_arith)
                    requires col <= line@.len(), BRICK_WIDTH == 52;
                assert(row * BRICK_HEIGHT <= text.len() * BRICK_HEIGHT) by (nonlinear_arith)
                    requires row <= text.len(), BRICK_HEIGHT == 22;
            }
            if let Some(kind) = grid_cell(ch) {
                spawns.push(
                    BrickSpawn { x: col * BRICK_WIDTH, y: row as i64 * BRICK_HEIGHT, kind },
                );
            }
            col = col + 1;
        }
        proof {
            assert(line@.take(line@.len() as int) == line@);
            let seen = text.take(row + 1);
            assert(seen.drop_last() == text.take(row as int));
            assert(seen.last() == line@);
        }
        row = row + 1;
    }
    assert(text.take(row as int) == text);
    spawns
}

/// The rows of built-in level `index`.
pub fn level_rows(index: usize) -> (rows: Vec<&'static str>)
    requires
        index < LEVEL_COUNT,
    ensures
        grid_text(rows@) == level_text(index as int),
{
    if index == 0 {
        let rows: [&'static str; 4] = LEVEL_1;
        vstd::slice::slice_to_vec(rows.as_slice())
    } else if index == 1 {
        let rows: [&'static str; 5] = LEVEL_2;
        vstd::slice::slice_to_vec(rows.as_slice())
    } else {
        let rows: [&'static str; 6] = LEVEL_3;
        vstd::slice::slice_to_vec(rows.as_slice())
    }
}

/// Largest grid that a built-in level may have.
pub const MAX_COLUMNS: usize = 14;

pub const MAX_ROWS: usize = 8;

/// Every built-in level is a rectangle of at most fourteen columns and eight
/// rows.
pub proof fn law_built_in_levels_are_rectangles(index: int)
    requires
        0 <= index < LEVEL_COUNT,
    ensures
        0 < level_text(index).len() <= MAX_ROWS,
        level_text(index)[0].len() <= MAX_COLUMNS,
        forall|row: int|
            0 <= row < level_text(index).len() ==> (#[trigger] level_text(index)[row]).len()
                == level_text(index)[0].len(),
        grid_fits(level_text(index)),
{
    reveal_strlit("11111111111111");
    reveal_strlit("22222222222222");
    reveal_strlit("XXXXXXXXXXXXXX");
    reveal_strlit("X111111111111X");
    reveal_strlit("X122222222221X");
    reveal_strlit("X1..........1X");
    let text = level_text(index);
    assert forall|row: int| 0 <= row < text.len() implies (#[trigger] text[row]).len()
        == MAX_COLUMNS by {
        if index == 0 {
            assert(text[row] == LEVEL_1@[row]@);
        } else if index == 1 {
            assert(text[row] == LEVEL_2@[row]@);
        } else {
            assert(text[row] == LEVEL_3@[row]@);
        }
    }
}

proof fn lemma_row_spawns(line: Seq<char>, row: int)
    requires
        0 <= row,
        row * BRICK_HEIGHT <= i64::MAX,
        line.len() * BRICK_WIDTH <= i64::MAX,
    ensures
        forall|i: int|
            0 <= i < row_spawns(line, row).len() ==> exists|col: int|
                0 <= col < line.len() && cell_kind(line[col]) is Some && #[trigger] row_spawns(
                    line,
                    row,
                )[i] == spawn_at(row, col, #[trigger] cell_kind(line[col])->0),
        forall|col: int|
            0 <= col < line.len() ==> match #[trigger] cell_kind(line[col]) {
                Some(kind) => row_spawns(line, row).contains(spawn_at(row, col, kind)),
                None => true,
            },
    decreases line.len(),
{
    if line.len() > 0 {
        let start = line.drop_last();
        let before = row_spawns(start, row);
        let all = row_spawns(line, row);
        lemma_row_spawns(start, row);
        assert forall|i: int| 0 <= i < all.len() implies exists|col: int|
            0 <= col < line.len() && cell_kind(line[col]) is Some && #[trigger] all[i] == spawn_at(
                row,
                col,
                #[trigger] cell_kind(line[col])->0,
            ) by {
            if i < before.len() {
                let col = choose|col: int|
                    0 <= col < start.len() && cell_kind(start[col]) is Some && before[i]
                        == spawn_at(row, col, #[trigger] cell_kind(start[col])->0);
                assert(start[col] == line[col]);
                assert(all[i] == spawn_at(row, col, cell_kind(line[col])->0));
            } else {
                let col = line.len() - 1;
                assert(cell_kind(line[col]) is Some);
                assert(all[i] == spawn_at(row, col, cell_kind(line[col])->0));
            }
        }
        assert forall|col: int| 0 <= col < line.len() implies match #[trigger] cell_kind(
            line[col],
        ) {
            Some(kind) => all.contains(spawn_at(row, col, kind)),
            None => true,
        } by {
            if let Some(kind) = cell_kind(line[col]) {
                let spawn = spawn_at(row, col, kind);
                if col < start.len() {
                    assert(start[col] == line[col]);
                    let i = choose|i: int| 0 <= i < before.len() && before[i] == spawn;
                    assert(all[i] == spawn);
                } else {
                    assert(all[before.len() as int] == spawn);
                }
            }
        }
    }
}

/// Whether one spawn comes before another in reading order, which puts it at
/// least a brick away.
pub open spec fn reads_before(first: BrickSpawn, second: BrickSpawn) -> bool {
    ||| first.y + BRICK_HEIGHT <= second.y
    ||| first.y == second.y && first.x + BRICK_WIDTH <= second.x
}

proof fn lemma_row_reads_on(line: Seq<char>, row: int)
    requires
        0 <= row,
        row * BRICK_HEIGHT <= i64::MAX,
        line.len() * BRICK_WIDTH <= i64::MAX,
    ensures
        forall|i: int|
            0 <= i < row_spawns(line, row).len() ==> {
                &&& (#[trigger] row_spawns(line, row)[i]).x + BRICK_WIDTH <= line.len() * BRICK_WIDTH
                &&& row_spawns(line, row)[i].y == row * BRICK_HEIGHT
            },
        forall|i: int, j: int|
            0 <= i < j < row_spawns(line, row).len() ==> reads_before(
                #[trigger] row_spawns(line, row)[i],
                #[trigger] row_spawns(line, row)[j],
            ),
    decreases line.len(),
{
    if line.len() > 0 {
        lemma_row_reads_on(line.drop_last(), row);
    }
}

proof fn lemma_grid_reads_on(grid: Seq<Seq<char>>)
    requires
        grid_fits(grid),
    ensures
        forall|i: int|
            0 <= i < level_spawns(grid).len() ==> (#[trigger] level_spawns(grid)[i]).y + BRICK_HEIGHT
                <= grid.len() * BRICK_HEIGHT,
        forall|i: int, j: int|
            0 <= i < j < level_spawns(grid).len() ==> reads_before(
                #[trigger] level_spawns(grid)[i],
                #[trigger] level_spawns(grid)[j],
            ),
    decreases grid.len(),
{
    if grid.len() > 0 {
        let above = grid.drop_last();
        let last = grid.len() - 1;
        assert forall|row: int| 0 <= row < above.len() implies (#[trigger] above[row]).len()
            * BRICK_WIDTH <= i64::MAX by {
            assert(above[row] == grid[row]);
        }
        lemma_grid_reads_on(above);
        assert(grid[last].len() * BRICK_WIDTH <= i64::MAX);
        lemma_row_reads_on(grid.last(), last);
    }
}

/// The spawns of a grid are exactly its occupied cells, in reading order: each
/// spawn is the spawn of some cell, each cell that holds a brick has its spawn,
/// and they come row by row from the top and left to right in a row.
pub proof fn law_spawns_are_the_occupied_cells(grid: Seq<Seq<char>>)
    requires
        grid_fits(grid),
    ensures
        forall|i: int|
            0 <= i < level_spawns(grid).len() ==> exists|row: int, col: int|
                0 <= row < grid.len() && 0 <= col < grid[row].len() && cell_kind(
                    grid[row][col],
                ) is Some && #[trigger] level_spawns(grid)[i] == spawn_at(
                    row,
                    col,
                    #[trigger] cell_kind(grid[row][col])->0,
                ),
        forall|row: int, col: int|
            0 <= row < grid.len() && 0 <= col < grid[row].len() ==> match #[trigger] cell_kind(
                grid[row][col],
            ) {
                Some(kind) => level_spawns(grid).contains(spawn_at(row, col, kind)),
                None => true,
            },
        forall|i: int, j: int|
            0 <= i < j < level_spawns(grid).len() ==> reads_before(
                #[trigger] level_spawns(grid)[i],
                #[trigger] level_spawns(grid)[j],
            ),
    decreases grid.len(),
{
    lemma_grid_reads_on(grid);
    if grid.len() > 0 {
        let above = grid.drop_last();
        let last = grid.len() - 1;
        let before = level_spawns(above);
        let here = row_spawns(grid.last(), last);
        let all = level_spawns(grid);
        assert forall|row: int| 0 <= row < above.len() implies (#[trigger] above[row]).len()
            * BRICK_WIDTH <= i64::MAX by {
            assert(above[row] == grid[row]);
        }
        law_spawns_are_the_occupied_cells(above);
        assert(grid[last].len() * BRICK_WIDTH <= i64::MAX);
        lemma_row_spawns(grid.last(), last);
        assert forall|i: int| 0 <= i < all.len() implies exists|row: int, col: int|
            0 <= row < grid.len() && 0 <= col < grid[row].len() && cell_kind(
                grid[row][col],
            ) is Some && #[trigger] all[i] == spawn_at(
                row,
                col,
                #[trigger] cell_kind(grid[row][col])->0,
            ) by {
            if i < before.len() {
                let (row, col) = choose|row: int, col: int|
                    0 <= row < above.len() && 0 <= col < above[row].len() && cell_kind(
                        above[row][col],
                    ) is Some && before[i] == spawn_at(
                        row,
                        col,
                        #[trigger] cell_kind(above[row][col])->0,
                    );
                assert(above[row] == grid[row]);
                assert(all[i] == spawn_at(row, col, cell_kind(grid[row][col])->0));
            } else {
                let j = i - before.len();
                assert(all[i] == here[j]);
                let col = choose|col: int|
                    0 <= col < grid.last().len() && cell_kind(grid.last()[col]) is Some
                        && here[j] == spawn_at(
                        last,
                        col,
                        #[trigger] cell_kind(grid.last()[col])->0,
                    );
                assert(all[i] == spawn_at(last, col, cell_kind(grid[last][col])->0));
            }
        }
        assert forall|row: int, col: int|
            0 <= row < grid.len() && 0 <= col < grid[row].len() implies match #[trigger] cell_kind(
            grid[row][col],
        ) {
            Some(kind) => all.contains(spawn_at(row, col, kind)),
            None => true,
        } by {
            if let Some(kind) = cell_kind(grid[row][col]) {
                let spawn = spawn_at(row, col, kind);
                if row < last {
                    assert(above[row] == grid[row]);
                    assert(cell_kind(above[row][col]) == Some(kind));
                    let i = choose|i: int| 0 <= i < before.len() && before[i] == spawn;
                    assert(all[i] == spawn);
                } else {
                    assert(cell_kind(grid.last()[col]) == Some(kind));
                    let i = choose|i: int| 0 <= i < here.len() && here[i] == spawn;
                    assert(all[before.len() + i] == spawn);
                }
            }
        }
    }
}

/// In a grid `1` is a normal brick, `2` an armored one and `X` an indestructible
/// one, and no other character is a brick.
pub proof fn law_grid_characters(ch: char)
    ensures
        cell_kind(ch) == Some(BrickKind::Normal) <==> ch == '1',
        cell_kind(ch) == Some(BrickKind::Armored) <==> ch == '2',
        cell_kind(ch) == Some(BrickKind::Indestructible) <==> ch == 'X',
{
}

/// The spawn of a cell is its top-left corner: 52 pixels to the right for each
/// column and 22 down for each row.
pub proof fn law_spawns_lie_in_their_cell(
    grid: Seq<Seq<char>>,
    row: int,
    col: int,
    kind: BrickKind,
)
    requires
        grid_fits(grid),
        0 <= row < grid.len(),
        0 <= col < grid[row].len(),
    ensures
        spawn_at(row, col, kind).x == 52 * col,
        spawn_at(row, col, kind).y == 22 * row,
        spawn_at(row, col, kind).kind == kind,
        cell_kind(grid[row][col]) == Some(kind) ==> exists|i: int|
            {
                &&& 0 <= i < level_spawns(grid).len()
                &&& (#[trigger] level_spawns(grid)[i]).x == 52 * col
                &&& level_spawns(grid)[i].y == 22 * row
                &&& level_spawns(grid)[i].kind == kind
            },
{
    assert(grid[row].len() * BRICK_WIDTH <= i64::MAX);
    if cell_kind(grid[row][col]) == Some(kind) {
        law_spawns_are_the_occupied_cells(grid);
        let spawns = level_spawns(grid);
        let spawn = spawn_at(row, col, kind);
        assert(spawns.contains(spawn));
        let i = choose|i: int| 0 <= i < spawns.len() && spawns[i] == spawn;
        assert(spawns[i] == spawn);
    }
}

/// The rows of a grid are the strings that it is written in.
pub proof fn law_grids_keep_their_rows(grid: Seq<&str>, row: int)
    requires
        0 <= row < grid.len(),
    ensures
        grid_text(grid).len() == grid.len(),
        grid_text(grid)[row] == grid[row]@,
{
}

/// The levels are played in their order.
pub proof fn law_levels_come_in_play_order()
    ensures
        level_text(0) == grid_text(LEVEL_1@),
        level_text(1) == grid_text(LEVEL_2@),
        level_text(2) == grid_text(LEVEL_3@),
        LEVEL_COUNT == 3,
{
}

} // verus!
