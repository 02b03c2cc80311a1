//! Levelset files: plain text holding any number of levels, each a pair of
//! character grids, one for the bricks and one for the power-ups they drop.
//!
//! ```text
//! Version: <major>.<minor>      (optional first line)
//! Level:
//! <author>
//! <name>
//! Bricks:
//! <18 lines of 14 characters>
//! Bonus:
//! <18 lines of 14 characters>
//! ```
//!
//! The format knows far more kinds of bricks and bonuses than the game does,
//! so reading is lossy. A character that maps to nothing leaves a warning that
//! names the source and the line. A block that does not match ends the file:
//! the levels before it are kept, and nothing is ever an error.

use rand::rngs::StdRng;
use vstd::prelude::*;
use vstd::string::*;

use crate::chance;
use crate::chance::draw_indices;
use crate::events::PowerUpKind;
use crate::levels::{BrickKind, BRICK_HEIGHT, BRICK_WIDTH};
use crate::text;
use crate::text::{push_decimal, quote_char, same_text, split_lines, starts_with};

verus! {

/// Columns and rows of a levelset grid.
pub const GRID_WIDTH: usize = 14;

pub const GRID_HEIGHT: usize = 18;

/// Lines of a complete level block: four of header, two grids, and the label
/// between them.
pub const BLOCK_LINES: usize = 41;

/// One brick to spawn, in pixels from the grid's origin, and the power-up that
/// the bonus grid pairs with its cell.
#[derive(Debug, Clone, Copy, PartialEq, Eq)]
pub struct ExternalBrickSpawn {
    pub x: i64,
    pub y: i64,
    pub kind: BrickKind,
    pub powerup: Option<PowerUpKind>,
}

/// One level of a levelset.
#[derive(Debug, Clone, PartialEq, Eq)]
pub struct ExternalLevel {
    pub author: String,
    pub name: String,
    pub bricks: Vec<ExternalBrickSpawn>,
}

/// What was read from one levelset, and every warning that reading it left.
#[derive(Debug, Clone, PartialEq, Eq)]
pub struct LevelSet {
    pub levels: Vec<ExternalLevel>,
    pub warnings: Vec<String>,
}

/// The contents of an [`ExternalLevel`].
#[verifier::ext_equal]
pub struct LevelView {
    pub author: Seq<char>,
    pub name: Seq<char>,
    pub bricks: Seq<ExternalBrickSpawn>,
}

/// The contents of a [`LevelSet`].
#[verifier::ext_equal]
pub struct SetView {
    pub levels: Seq<LevelView>,
    pub warnings: Seq<Seq<char>>,
}

impl View for ExternalLevel {
    type V = LevelView;

    open spec fn view(&self) -> LevelView {
        LevelView { author: self.author@, name: self.name@, bricks: self.bricks@ }
    }
}

/// The contents of each of a list of levels.
pub open spec fn level_views(levels: Seq<ExternalLevel>) -> Seq<LevelView> {
    levels.map_values(|level: ExternalLevel| level@)
}

impl View for LevelSet {
    type V = SetView;

    open spec fn view(&self) -> SetView {
        SetView { levels: level_views(self.levels@), warnings: text::texts(self.warnings@) }
    }
}

impl Default for LevelSet {
    fn default() -> (set: Self)
        ensures
            set@ == (SetView { levels: Seq::empty(), warnings: Seq::empty() }),
    {
        let set = LevelSet { levels: Vec::new(), warnings: Vec::new() };
        assert(level_views(set.levels@) == Seq::<LevelView>::empty());
        assert(text::texts(set.warnings@) == Seq::<Seq<char>>::empty());
        set
    }
}

/// What a character of the brick grid stands for.
#[derive(Debug, Clone, Copy, PartialEq, Eq, Structural)]
pub enum BrickCell {
    /// Designated empty.
    Empty,
    Kind(BrickKind),
    /// Not in the format's table: warned about and left empty.
    Unsupported,
}

/// What a character of the bonus grid stands for.
#[derive(Debug, Clone, Copy, PartialEq, Eq, Structural)]
pub enum BonusCell {
    /// Designated empty.
    Empty,
    /// Means what one of the game's power-ups means.
    Mapped(PowerUpKind),
    /// In the format's table, but nothing in the game matches it: warned about
    /// and dropped.
    Recognized,
    /// Not in the format's table: warned about and dropped.
    Unsupported,
}

/// The table of the brick grid. Walls and bricks that only an energy ball
/// breaks are indestructible, bricks of several hits are armored, and every
/// other brick is normal. `F` to `K` are other names of `f` to `k`.
pub open spec fn brick_cell_of(ch: char) -> BrickCell {
    match ch {
        '.' | ' ' => BrickCell::Empty,
        'E' | '#' | '@' => BrickCell::Kind(BrickKind::Indestructible),
        'b' | 'c' | 'v' | 'y' | 'z' => BrickCell::Kind(BrickKind::Armored),
        'a' | 'd' | 'e' | 'f' | 'g' | 'h' | 'i' | 'j' | 'k' | 'x' | '*' | '!' | 'F' | 'G' | 'H'
        | 'I' | 'J' | 'K' => BrickCell::Kind(BrickKind::Normal),
        _ => BrickCell::Unsupported,
    }
}

/// The table of the bonus grid: a longer paddle, a slower ball and an extra
/// ball are the power-ups the game has.
pub open spec fn bonus_cell_of(ch: char) -> BonusCell {
    match ch {
        '.' => BonusCell::Empty,
        '+' => BonusCell::Mapped(PowerUpKind::Widen),
        '<' => BonusCell::Mapped(PowerUpKind::Slow),
        'b' => BonusCell::Mapped(PowerUpKind::Multiball),
        '0' | '1' | '2' | '3' | '4' | '5' | 'g' | '-' | 'l' | 's' | 'm' | 'w' | 'f' | 'p' | '?'
        | '>' | 'j' | 'd' | 'c' | '~' | '!' | '&' | '*' | '}' | '{' | 'W' => BonusCell::Recognized,
        _ => BonusCell::Unsupported,
    }
}

/// Looks a character up in the table of the brick grid.
pub fn brick_cell(ch: char) -> (cell: BrickCell)
    ensures
        cell == brick_cell_of(ch),
{
    match ch {
        '.' | ' ' => BrickCell::Empty,
        'E' | '#' | '@' => BrickCell::Kind(BrickKind::Indestructible),
        'b' | 'c' | 'v' | 'y' | 'z' => BrickCell::Kind(BrickKind::Armored),
        'a' | 'd' | 'e' | 'f' | 'g' | 'h' | 'i' | 'j' | 'k' | 'x' | '*' | '!' | 'F' | 'G' | 'H'
        | 'I' | 'J' | 'K' => BrickCell::Kind(BrickKind::Normal),
        _ => BrickCell::Unsupported,
    }
}

/// Looks a character up in the table of the bonus grid.
pub fn bonus_cell(ch: char) -> (cell: BonusCell)
    ensures
        cell == bonus_cell_of(ch),
{
    match ch {
        '.' => BonusCell::Empty,
        '+' => BonusCell::Mapped(PowerUpKind::Widen),
        '<' => BonusCell::Mapped(PowerUpKind::Slow),
        'b' => BonusCell::Mapped(PowerUpKind::Multiball),
        '0' | '1' | '2' | '3' | '4' | '5' | 'g' | '-' | 'l' | 's' | 'm' | 'w' | 'f' | 'p' | '?'
        | '>' | 'j' | 'd' | 'c' | '~' | '!' | '&' | '*' | '}' | '{' | 'W' => BonusCell::Recognized,
        _ => BonusCell::Unsupported,
    }
}

/// The brick that a character of the brick grid spawns.
pub open spec fn kind_of(ch: char) -> Option<BrickKind> {
    match brick_cell_of(ch) {
        BrickCell::Kind(kind) => Some(kind),
        _ => None,
    }
}

/// The power-up that a character of the bonus grid attaches.
pub open spec fn powerup_of(ch: char) -> Option<PowerUpKind> {
    match bonus_cell_of(ch) {
        BonusCell::Mapped(kind) => Some(kind),
        _ => None,
    }
}

/// Why a character of the brick grid is warned about, if it is.
pub open spec fn brick_reason(ch: char) -> Option<Seq<char>> {
    match brick_cell_of(ch) {
        BrickCell::Unsupported => Some("is unsupported -> mapped to empty"@),
        _ => None,
    }
}

/// Why a character of the bonus grid is warned about, if it is.
pub open spec fn bonus_reason(ch: char) -> Option<Seq<char>> {
    match bonus_cell_of(ch) {
        BonusCell::Recognized => Some("has no matching power-up -> no drop"@),
        BonusCell::Unsupported => Some("is unsupported -> no drop"@),
        _ => None,
    }
}

/// The characters of an optional string.
pub open spec fn optional_text(text: Option<&str>) -> Option<Seq<char>> {
    match text {
        Some(t) => Some(t@),
        None => None,
    }
}

/// The brick a cell spawns, and why the cell is warned about.
pub fn brick_cell_to_kind(ch: char) -> (cell: (Option<BrickKind>, Option<&'static str>))
    ensures
        cell.0 == kind_of(ch),
        optional_text(cell.1) == brick_reason(ch),
{
    match brick_cell(ch) {
        BrickCell::Empty => (None, None),
        BrickCell::Kind(kind) => (Some(kind), None),
        BrickCell::Unsupported => (None, Some("is unsupported -> mapped to empty")),
    }
}

/// The power-up a cell attaches, and why the cell is warned about.
pub fn bonus_cell_to_powerup(ch: char) -> (cell: (Option<PowerUpKind>, Option<&'static str>))
    ensures
        cell.0 == powerup_of(ch),
        optional_text(cell.1) == bonus_reason(ch),
{
    match bonus_cell(ch) {
        BonusCell::Empty => (None, None),
        BonusCell::Mapped(kind) => (Some(kind), None),
        BonusCell::Recognized => (None, Some("has no matching power-up -> no drop")),
        BonusCell::Unsupported => (None, Some("is unsupported -> no drop")),
    }
}

/// Which of a level's two grids is read.
#[derive(Debug, Clone, Copy, PartialEq, Eq, Structural)]
pub enum GridTable {
    Brick,
    Bonus,
}

/// The grid's name in a warning.
pub open spec fn table_name(table: GridTable) -> Seq<char> {
    match table {
        GridTable::Brick => "brick"@,
        GridTable::Bonus => "bonus"@,
    }
}

/// Why a character of the grid is warned about, if it is.
pub open spec fn cell_reason(table: GridTable, ch: char) -> Option<Seq<char>> {
    match table {
        GridTable::Brick => brick_reason(ch),
        GridTable::Bonus => bonus_reason(ch),
    }
}

/// The warning about a character, quoted, in column `col` of line `line_no`.
pub open spec fn warning_about(
    source: Seq<char>,
    line_no: nat,
    table: GridTable,
    quoted: Seq<char>,
    col: nat,
    reason: Seq<char>,
) -> Seq<char> {
    source + ":"@ + text::decimal(line_no) + ": "@ + table_name(table) + " char "@ + quoted
        + " at col "@ + text::decimal(col) + " "@ + reason
}

/// The warning about character `ch` in column `col` of line `line_no`.
pub open spec fn warning_text(
    source: Seq<char>,
    line_no: nat,
    table: GridTable,
    ch: char,
    col: nat,
    reason: Seq<char>,
) -> Seq<char> {
    warning_about(source, line_no, table, text::quoted_char(ch), col, reason)
}

/// The cells of a grid row: the first characters of its line, and empty cells
/// where the line is too short.
pub open spec fn row_cells(line: Seq<char>) -> Seq<char> {
    Seq::new(
        GRID_WIDTH as nat,
        |col: int|
            if col < line.len() {
                line[col]
            } else {
                '.'
            },
    )
}

/// The warnings about the cells of a row, left to right.
pub open spec fn row_warnings(
    source: Seq<char>,
    line_no: nat,
    table: GridTable,
    cells: Seq<char>,
) -> Seq<Seq<char>>
    decreases cells.len(),
{
    if cells.len() == 0 {
        Seq::empty()
    } else {
        let before = row_warnings(source, line_no, table, cells.drop_last());
        match cell_reason(table, cells.last()) {
            Some(reason) => before.push(
                warning_text(
                    source,
                    line_no,
                    table,
                    cells.last(),
                    (cells.len() - 1) as nat,
                    reason,
                ),
            ),
            None => before,
        }
    }
}

/// The cells of the `rows` lines from `start` on.
pub open spec fn grid_cells(lines: Seq<Seq<char>>, start: int, rows: nat) -> Seq<Seq<char>> {
    Seq::new(rows, |row: int| row_cells(lines[start + row]))
}

/// The warnings about the `rows` lines from `start` on, top to bottom.
pub open spec fn grid_warnings(
    source: Seq<char>,
    lines: Seq<Seq<char>>,
    start: int,
    rows: nat,
    table: GridTable,
) -> Seq<Seq<char>>
    decreases rows,
{
    if rows == 0 {
        Seq::empty()
    } else {
        grid_warnings(source, lines, start, (rows - 1) as nat, table) + row_warnings(
            source,
            (start + rows) as nat,
            table,
            row_cells(lines[start + rows - 1]),
        )
    }
}

/// How many lines of a grid that begins at `start` the file has.
pub open spec fn rows_present(lines: Seq<Seq<char>>, start: int) -> nat {
    if start + GRID_HEIGHT <= lines.len() {
        GRID_HEIGHT as nat
    } else if start <= lines.len() {
        (lines.len() - start) as nat
    } else {
        0
    }
}

/// Whether there is a line `index` and it begins with `label`.
pub open spec fn labelled(lines: Seq<Seq<char>>, index: int, label: Seq<char>) -> bool {
    0 <= index < lines.len() && text::begins_with(lines[index], label)
}

/// The brick of cell `index`, counted in reading order.
pub open spec fn brick_at(
    bricks: Seq<Seq<char>>,
    bonus: Seq<Seq<char>>,
    index: int,
) -> Option<ExternalBrickSpawn> {
    let row = index / GRID_WIDTH as int;
    let col = index % GRID_WIDTH as int;
    match kind_of(bricks[row][col]) {
        Some(kind) => Some(
            ExternalBrickSpawn {
                x: (col * BRICK_WIDTH) as i64,
                y: (row * BRICK_HEIGHT) as i64,
                kind,
                powerup: powerup_of(bonus[row][col]),
            },
        ),
        None => None,
    }
}

/// The bricks of the first `count` cells, in reading order.
pub open spec fn bricks_in(
    bricks: Seq<Seq<char>>,
    bonus: Seq<Seq<char>>,
    count: nat,
) -> Seq<ExternalBrickSpawn>
    decreases count,
{
    if count == 0 {
        Seq::empty()
    } else {
        let before = bricks_in(bricks, bonus, (count - 1) as nat);
        match brick_at(bricks, bonus, count - 1) {
            Some(brick) => before.push(brick),
            None => before,
        }
    }
}

/// What reading one level block gives: the level if the block is complete, and
/// the warnings about all grid lines that were read.
#[verifier::ext_equal]
pub struct BlockView {
    pub level: Option<LevelView>,
    pub warnings: Seq<Seq<char>>,
}

/// Reads the block that begins at line `start`.
pub open spec fn block_at(source: Seq<char>, lines: Seq<Seq<char>>, start: int) -> BlockView {
    let bricks_start = start + 4;
    let bonus_start = bricks_start + GRID_HEIGHT + 1;
    let brick_rows = rows_present(lines, bricks_start);
    let bonus_rows = rows_present(lines, bonus_start);
    let brick_warnings = grid_warnings(source, lines, bricks_start, brick_rows, GridTable::Brick);
    let bonus_warnings = grid_warnings(source, lines, bonus_start, bonus_rows, GridTable::Bonus);
    if !labelled(lines, start, "Level:"@) || !labelled(lines, start + 3, "Bricks:"@) {
        BlockView { level: None, warnings: Seq::empty() }
    } else if brick_rows < GRID_HEIGHT || !labelled(lines, bonus_start - 1, "Bonus:"@) {
        BlockView { level: None, warnings: brick_warnings }
    } else if bonus_rows < GRID_HEIGHT {
        BlockView { level: None, warnings: brick_warnings + bonus_warnings }
    } else {
        let bricks = bricks_in(
            grid_cells(lines, bricks_start, GRID_HEIGHT as nat),
            grid_cells(lines, bonus_start, GRID_HEIGHT as nat),
            (GRID_WIDTH * GRID_HEIGHT) as nat,
        );
        BlockView {
            level: Some(LevelView { author: lines[start + 1], name: lines[start + 2], bricks }),
            warnings: brick_warnings + bonus_warnings,
        }
    }
}

/// Reads blocks from line `start` on until one does not match.
pub open spec fn blocks_from(source: Seq<char>, lines: Seq<Seq<char>>, start: int) -> SetView
    decreases lines.len() - start,
{
    let block = block_at(source, lines, start);
    match block.level {
        Some(level) => {
            let rest = blocks_from(source, lines, start + BLOCK_LINES);
            SetView {
                levels: seq![level] + rest.levels,
                warnings: block.warnings + rest.warnings,
            }
        },
        None => SetView { levels: Seq::empty(), warnings: block.warnings },
    }
}

/// The line the first block begins at: a version header is only recognized as
/// the very first line, and may be missing.
pub open spec fn first_block(lines: Seq<Seq<char>>) -> int {
    if labelled(lines, 0, "Version:"@) {
        1
    } else {
        0
    }
}

/// What reading a whole levelset gives.
pub open spec fn levelset_of(source: Seq<char>, content: Seq<char>) -> SetView {
    blocks_from(source, text::lines_of(content), first_block(text::lines_of(content)))
}

/// Writes the warning about a character, quoted, in column `col` of line
/// `line_no`.
pub fn warning_line(
    source: &str,
    line_no: usize,
    table: GridTable,
    quoted: &str,
    col: usize,
    reason: &str,
) -> (line: String)
    ensures
        line@ == warning_about(source@, line_no as nat, table, quoted@, col as nat, reason@),
{
    let mut line: String = source.to_owned();
    line.append(":");
    push_decimal(&mut line, line_no as u64);
    line.append(": ");
    match table {
        GridTable::Brick => line.append("brick"),
        GridTable::Bonus => line.append("bonus"),
    }
    line.append(" char ");
    line.append(quoted);
    line.append(" at col ");
    push_decimal(&mut line, col as u64);
    line.append(" ");
    line.append(reason);
    line
}

/// Appends the warning about character `ch` in column `col` of line `line_no`.
fn push_warning(
    warnings: &mut Vec<String>,
    source: &str,
    line_no: usize,
    table: GridTable,
    ch: char,
    col: usize,
    reason: &str,
)
    ensures
        text::texts(final(warnings)@) == text::texts(old(warnings)@).push(
            warning_text(source@, line_no as nat, table, ch, col as nat, reason@),
        ),
{
    let quoted = quote_char(ch);
    let warning = warning_line(source, line_no, table, quoted.as_str(), col, reason);
    let ghost before = warnings@;
    warnings.push(warning);
    assert(text::texts(warnings@) == text::texts(before).push(warning@));
}

/// Why a character of the grid is warned about, if it is.
fn warning_reason(table: GridTable, ch: char) -> (reason: Option<&'static str>)
    ensures
        optional_text(reason) == cell_reason(table, ch),
{
    match table {
        GridTable::Brick => brick_cell_to_kind(ch).1,
        GridTable::Bonus => bonus_cell_to_powerup(ch).1,
    }
}

/// Reads one grid row, padding a short line with empty cells, and warns about
/// each of its cells that maps to nothing.
fn read_row(
    source: &str,
    line: &str,
    line_no: usize,
    warnings: &mut Vec<String>,
    table: GridTable,
) -> (row: Vec<char>)
    ensures
        row@ == row_cells(line@),
        text::texts(final(warnings)@) == text::texts(old(warnings)@) + row_warnings(
            source@,
            line_no as nat,
            table,
            row_cells(line@),
        ),
{
    let ghost cells = row_cells(line@);
    let length: usize = line.unicode_len();
    let mut row: Vec<char> = Vec::new();
    let mut col: usize = 0;
    while col < GRID_WIDTH
        invariant
            col <= GRID_WIDTH,
            length == line@.len(),
            cells == row_cells(line@),
            row@ == cells.take(col as int),
            text::texts(warnings@) == text::texts(old(warnings)@) + row_warnings(
                source@,
                line_no as nat,
                table,
                cells.take(col as int),
            ),
        decreases GRID_WIDTH - col,
    {
        let ch: char = if col < length {
            line.get_char(col)
        } else {
            '.'
        };
        proof {
            let seen = cells.take(col + 1);
            assert(seen.drop_last() == cells.take(col as int));
            assert(seen.last() == ch);
            assert(seen == cells.take(col as int).push(ch));
        }
        row.push(ch);
        if let Some(reason) = warning_reason(table, ch) {
            push_warning(warnings, source, line_no, table, ch, col, reason);
        }
        col = col + 1;
    }
    assert(cells.take(col as int) == cells);
    row
}

/// Reads the grid that begins at line `start`. A file that ends too early
/// leaves no grid, but the warnings about the lines it has; one that ends
/// before the grid begins leaves neither.
fn read_grid(
    source: &str,
    lines: &Vec<String>,
    start: usize,
    warnings: &mut Vec<String>,
    table: GridTable,
) -> (grid: Option<Vec<Vec<char>>>)
    ensures
        text::texts(final(warnings)@) == text::texts(old(warnings)@) + grid_warnings(
            source@,
            text::texts(lines@),
            start as int,
            rows_present(text::texts(lines@), start as int),
            table,
        ),
        match grid {
            Some(rows) => start + GRID_HEIGHT <= lines@.len() && rows.deep_view() == grid_cells(
                text::texts(lines@),
                start as int,
                GRID_HEIGHT as nat,
            ),
            None => start + GRID_HEIGHT > lines@.len(),
        },
{
    let ghost text = text::texts(lines@);
    if start > lines.len() {
        return None;
    }
    let present: usize = lines.len() - start;
    let mut grid: Vec<Vec<char>> = Vec::new();
    let mut row: usize = 0;
    while row < GRID_HEIGHT
        invariant
            row <= GRID_HEIGHT,
            row <= present,
            start + present == lines@.len(),
            start + present <= usize::MAX,
            text == text::texts(lines@),
            grid.deep_view() == grid_cells(text, start as int, row as nat),
            text::texts(warnings@) == text::texts(old(warnings)@) + grid_warnings(
                source@,
                text,
                start as int,
                row as nat,
                table,
            ),
        decreases GRID_HEIGHT - row,
    {
        if row >= present {
            assert(rows_present(text, start as int) == row);
            return None;
        }
        let cells = read_row(source, lines[start + row].as_str(), start + row + 1, warnings, table);
        let ghost before = grid.deep_view();
        grid.push(cells);
        row = row + 1;
        proof {
            assert(text[start + row - 1] == lines@[start + row - 1]@);
            assert(cells.deep_view() == cells@);
            assert(grid.deep_view() == before.push(cells@));
            assert(grid_cells(text, start as int, row as nat) == before.push(cells@));
        }
    }
    assert(rows_present(text, start as int) == GRID_HEIGHT);
    Some(grid)
}

/// Collects the bricks of a level from its two grids.
fn collect_bricks(bricks: &Vec<Vec<char>>, bonus: &Vec<Vec<char>>) -> (spawns: Vec<
    ExternalBrickSpawn,
>)
    requires
        bricks@.len() == GRID_HEIGHT,
        bonus@.len() == GRID_HEIGHT,
        forall|row: int| 0 <= row < GRID_HEIGHT ==> (#[trigger] bricks@[row])@.len() == GRID_WIDTH,
        forall|row: int| 0 <= row < GRID_HEIGHT ==> (#[trigger] bonus@[row])@.len() == GRID_WIDTH,
    ensures
        spawns@ == bricks_in(
            bricks.deep_view(),
            bonus.deep_view(),
            (GRID_WIDTH * GRID_HEIGHT) as nat,
        ),
{
    let mut spawns: Vec<ExternalBrickSpawn> = Vec::new();
    let mut row: usize = 0;
    while row < GRID_HEIGHT
        invariant
            row <= GRID_HEIGHT,
            bricks@.len() == GRID_HEIGHT,
            bonus@.len() == GRID_HEIGHT,
            forall|r: int| 0 <= r < GRID_HEIGHT ==> (#[trigger] bricks@[r])@.len() == GRID_WIDTH,
            forall|r: int| 0 <= r < GRID_HEIGHT ==> (#[trigger] bonus@[r])@.len() == GRID_WIDTH,
            spawns@ == bricks_in(bricks.deep_view(), bonus.deep_view(), (row * GRID_WIDTH) as nat),
        decreases GRID_HEIGHT - row,
    {
        let mut col: usize = 0;
        while col < GRID_WIDTH
            invariant
                row < GRID_HEIGHT,
                col <= GRID_WIDTH,
                bricks@.len() == GRID_HEIGHT,
                bonus@.len() == GRID_HEIGHT,
                bricks@[row as int]@.len() == GRID_WIDTH,
                bonus@[row as int]@.len() == GRID_WIDTH,
                spawns@ == bricks_in(
                    bricks.deep_view(),
                    bonus.deep_view(),
                    (row * GRID_WIDTH + col) as nat,
                ),
            decreases GRID_WIDTH - col,
        {
            proof {
                let index = row * GRID_WIDTH + col;
                assert(index / GRID_WIDTH as int == row && index % GRID_WIDTH as int == col);
                assert(bricks.deep_view()[row as int] == bricks@[row as int].deep_view());
                assert(bricks@[row as int].deep_view() == bricks@[row as int]@);
                assert(bonus.deep_view()[row as int] == bonus@[row as int].deep_view());
                assert(bonus@[row as int].deep_view() == bonus@[row as int]@);
            }
            if let Some(kind) = brick_cell_to_kind(bricks[row][col]).0 {
                spawns.push(
                    ExternalBrickSpawn {
                        x: col as i64 * BRICK_WIDTH,
                        y: row as i64 * BRICK_HEIGHT,
                        kind,
                        powerup: bonus_cell_to_powerup(bonus[row][col]).0,
                    },
                );
            }
            col = col + 1;
        }
        row = row + 1;
    }
    spawns
}

/// Whether there is a line `index` and it begins with `label`.
fn line_labelled(lines: &Vec<String>, index: usize, label: &str) -> (found: bool)
    ensures
        found == labelled(text::texts(lines@), index as int, label@),
{
    index < lines.len() && starts_with(lines[index].as_str(), label)
}

/// Reads the level block that begins at line `start`, if it is complete.
fn parse_one_level(
    source: &str,
    lines: &Vec<String>,
    start: usize,
    warnings: &mut Vec<String>,
) -> (level: Option<ExternalLevel>)
    ensures
        ({
            let block = block_at(source@, text::texts(lines@), start as int);
            &&& text::texts(final(warnings)@) == text::texts(old(warnings)@) + block.warnings
            &&& match level {
                Some(read) => block.level == Some(read@) && start + BLOCK_LINES <= lines@.len(),
                None => block.level is None,
            }
        }),
{
    let ghost text = text::texts(lines@);
    if start > lines.len() {
        return None;
    }
    let left: usize = lines.len() - start;
    if left < 4 || !line_labelled(lines, start, "Level:") || !line_labelled(
        lines,
        start + 3,
        "Bricks:",
    ) {
        return None;
    }
    let author = lines[start + 1].clone();
    let name = lines[start + 2].clone();
    let brick_grid = match read_grid(source, lines, start + 4, warnings, GridTable::Brick) {
        Some(grid) => grid,
        None => return None,
    };
    if left < 5 + GRID_HEIGHT || !line_labelled(lines, start + 4 + GRID_HEIGHT, "Bonus:") {
        return None;
    }
    let bonus_grid = match read_grid(
        source,
        lines,
        start + 5 + GRID_HEIGHT,
        warnings,
        GridTable::Bonus,
    ) {
        Some(grid) => grid,
        None => return None,
    };
    proof {
        let cells = grid_cells(text, start + 4, GRID_HEIGHT as nat);
        let extras = grid_cells(text, start + 5 + GRID_HEIGHT, GRID_HEIGHT as nat);
        assert(brick_grid.deep_view().len() == brick_grid@.len());
        assert(bonus_grid.deep_view().len() == bonus_grid@.len());
        assert forall|row: int| 0 <= row < GRID_HEIGHT implies (
        #[trigger] brick_grid@[row])@.len() == GRID_WIDTH by {
            assert(brick_grid.deep_view()[row] == brick_grid@[row].deep_view());
            assert(cells[row].len() == GRID_WIDTH);
        }
        assert forall|row: int| 0 <= row < GRID_HEIGHT implies (
        #[trigger] bonus_grid@[row])@.len() == GRID_WIDTH by {
            assert(bonus_grid.deep_view()[row] == bonus_grid@[row].deep_view());
            assert(extras[row].len() == GRID_WIDTH);
        }
    }
    let bricks = collect_bricks(&brick_grid, &bonus_grid);
    Some(ExternalLevel { author, name, bricks })
}

/// Reads a whole levelset. `source` only labels the warnings.
pub fn parse_levelset(source: &str, content: &str) -> (set: LevelSet)
    ensures
        set@ == levelset_of(source@, content@),
{
    let lines = split_lines(content);
    let ghost text = text::texts(lines@);
    let mut start: usize = if line_labelled(&lines, 0, "Version:") {
        1
    } else {
        0
    };
    let ghost first = start as int;
    let mut levels: Vec<ExternalLevel> = Vec::new();
    let mut warnings: Vec<String> = Vec::new();
    let ghost whole = blocks_from(source@, text, first);
    assert(level_views(levels@) == Seq::<LevelView>::empty());
    assert(text::texts(warnings@) == Seq::<Seq<char>>::empty());
    let total: usize = lines.len();
    loop
        invariant_except_break
            whole.levels == level_views(levels@) + blocks_from(source@, text, start as int).levels,
            whole.warnings == text::texts(warnings@) + blocks_from(
                source@,
                text,
                start as int,
            ).warnings,
        invariant
            start <= total,
            total == lines@.len(),
            text == text::texts(lines@),
        ensures
            whole.levels == level_views(levels@),
            whole.warnings == text::texts(warnings@),
        decreases lines@.len() - start,
    {
        let ghost noted = text::texts(warnings@);
        match parse_one_level(source, &lines, start, &mut warnings) {
            Some(level) => {
                let ghost before = level_views(levels@);
                levels.push(level);
                proof {
                    let rest = blocks_from(source@, text, start + BLOCK_LINES);
                    assert(level_views(levels@) == before.push(level@));
                    assert(before + (seq![level@] + rest.levels) == before.push(level@)
                        + rest.levels);
                    let block = block_at(source@, text, start as int);
                    assert(noted + (block.warnings + rest.warnings) == (noted + block.warnings)
                        + rest.warnings);
                }
                start = start + BLOCK_LINES;
            },
            None => {
                assert(level_views(levels@) + Seq::<LevelView>::empty() == level_views(levels@));
                break;
            },
        }
    }
    LevelSet { levels, warnings }
}

/// How many levels a random session plays.
pub const RANDOM_LEVELS: usize = 10;

/// How many levels a random session takes out of `count`.
pub open spec fn session_length(count: nat) -> nat {
    if count < RANDOM_LEVELS {
        count
    } else {
        RANDOM_LEVELS as nat
    }
}

/// Levels picked out of a list by position.
pub open spec fn levels_at(levels: Seq<LevelView>, picks: Seq<usize>) -> Seq<LevelView> {
    picks.map_values(|pick: usize| levels[pick as int])
}

/// A copy of a level.
pub(crate) fn copy_level(level: &ExternalLevel) -> (copy: ExternalLevel)
    ensures
        copy@ == level@,
{
    let copy = ExternalLevel {
        author: level.author.clone(),
        name: level.name.clone(),
        bricks: level.bricks.clone(),
    };
    assert(copy.bricks@ == level.bricks@);
    copy
}

/// The levels of `set` at the given positions, in that order.
pub fn pick_levels(set: &LevelSet, picks: &Vec<usize>) -> (levels: Vec<ExternalLevel>)
    requires
        forall|i: int| 0 <= i < picks@.len() ==> (#[trigger] picks@[i]) < set.levels@.len(),
    ensures
        level_views(levels@) == levels_at(set@.levels, picks@),
{
    let mut levels: Vec<ExternalLevel> = Vec::new();
    let mut i: usize = 0;
    while i < picks.len()
        invariant
            i <= picks@.len(),
            forall|k: int| 0 <= k < picks@.len() ==> (#[trigger] picks@[k]) < set.levels@.len(),
            level_views(levels@) == levels_at(set@.levels, picks@.take(i as int)),
        decreases picks@.len() - i,
    {
        let level = copy_level(&set.levels[picks[i]]);
        let ghost before = level_views(levels@);
        levels.push(level);
        proof {
            assert(level_views(levels@) == before.push(level@));
            assert(picks@.take(i + 1) == picks@.take(i as int).push(picks@[i as int]));
            assert(levels_at(set@.levels, picks@.take(i + 1)) == before.push(level@));
        }
        i = i + 1;
    }
    assert(picks@.take(i as int) == picks@);
    levels
}

/// A letter in lower case. Only the letters `A` to `Z` have one.
pub open spec fn lower(ch: char) -> char {
    if 'A' <= ch <= 'Z' {
        (ch as int + 32) as char
    } else {
        ch
    }
}

/// Whether a file name ends in `.lbl`, in capitals or not, behind at least one
/// other character.
pub open spec fn is_levelset(name: Seq<char>) -> bool {
    let dot = name.len() - 4;
    &&& dot > 0
    &&& name[dot] == '.'
    &&& lower(name[dot + 1]) == 'l'
    &&& lower(name[dot + 2]) == 'b'
    &&& lower(name[dot + 3]) == 'l'
}

/// Whether a file of this name holds a levelset.
pub fn is_levelset_name(name: &str) -> (yes: bool)
    ensures
        yes == is_levelset(name@),
{
    let length: usize = name.unicode_len();
    if length <= 4 {
        return false;
    }
    let dot: usize = length - 4;
    let first = name.get_char(dot + 1);
    let second = name.get_char(dot + 2);
    let third = name.get_char(dot + 3);
    name.get_char(dot) == '.' && (first == 'l' || first == 'L') && (second == 'b' || second == 'B')
        && (third == 'l' || third == 'L')
}

/// The positions that a session of random levels draws from a set of `count`
/// levels, and the generator after it.
pub open spec fn session_picks(rng: StdRng, count: usize) -> (Seq<usize>, StdRng) {
    chance::drawn_indices(rng, count, session_length(count as nat) as usize)
}

/// Picks up to ten distinct levels of `set` at random, in random order. A set
/// of ten levels or fewer gives each of its levels once.
pub fn random10(set: &LevelSet, rng: &mut StdRng) -> (levels: Vec<ExternalLevel>)
    ensures
        ({
            let (picks, after) = session_picks(*old(rng), set.levels.len());
            &&& picks.len() == session_length(set.levels@.len())
            &&& chance::all_distinct(picks)
            &&& forall|i: int|
                0 <= i < picks.len() ==> (#[trigger] picks[i]) < set.levels@.len()
            &&& level_views(levels@) == levels_at(set@.levels, picks)
            &&& *final(rng) == after
        }),
{
    let count: usize = set.levels.len();
    let amount: usize = if count < RANDOM_LEVELS {
        count
    } else {
        RANDOM_LEVELS
    };
    let picks = draw_indices(rng, count, amount);
    pick_levels(set, &picks)
}

/// Whether the progress record lists the set `set_id` as completed.
pub open spec fn completed(progress: Seq<char>, set_id: Seq<char>) -> bool {
    text::lines_of(progress).contains(set_id)
}

/// Whether a progress record lists a set as completed. The record holds one
/// set per line.
pub fn is_set_completed(progress: &str, set_id: &str) -> (done: bool)
    ensures
        done == completed(progress@, set_id@),
{
    let lines = split_lines(progress);
    let ghost listed = text::lines_of(progress@);
    let mut i: usize = 0;
    while i < lines.len()
        invariant
            i <= lines@.len(),
            listed == text::texts(lines@),
            listed == text::lines_of(progress@),
            forall|k: int| 0 <= k < i ==> listed[k] != set_id@,
        decreases lines@.len() - i,
    {
        assert(listed[i as int] == lines@[i as int]@);
        if same_text(lines[i].as_str(), set_id) {
            return true;
        }
        i = i + 1;
    }
    false
}

/// What recording the set `set_id` as completed appends to the progress record:
/// a line of its own, or nothing if the set is already listed.
pub open spec fn completion_record(progress: Seq<char>, set_id: Seq<char>) -> Seq<char> {
    if completed(progress, set_id) {
        Seq::empty()
    } else {
        set_id.push('\n')
    }
}

/// The text to append to a progress record so that it lists `set_id`; nothing
/// if it already does.
pub fn mark_set_completed(progress: &str, set_id: &str) -> (record: Option<String>)
    ensures
        match record {
            Some(line) => !completed(progress@, set_id@) && line@ == completion_record(
                progress@,
                set_id@,
            ),
            None => completed(progress@, set_id@),
        },
{
    if is_set_completed(progress, set_id) {
        return None;
    }
    let mut line: String = set_id.to_owned();
    line.push('\n');
    Some(line)
}

} // verus!
