//! What holds of every levelset and of every progress record.

use rand::rngs::StdRng;
use vstd::prelude::*;

use crate::chance;
use crate::events::PowerUpKind;
use crate::levels::BrickKind;
use crate::levelset;
use crate::levelset::{
    ExternalBrickSpawn, GridTable, LevelSet, LevelView, BLOCK_LINES, GRID_HEIGHT, GRID_WIDTH,
};
use crate::text;

verus! {

/// A progress record after the set `set_id` was recorded in it.
pub open spec fn record_after(progress: Seq<char>, set_id: Seq<char>) -> Seq<char> {
    progress + levelset::completion_record(progress, set_id)
}

proof fn lemma_record_lines(progress: Seq<char>, set_id: Seq<char>)
    requires
        text::line_ended(progress),
        text::fits_one_line(set_id),
    ensures
        text::line_ended(record_after(progress, set_id)),
        levelset::completed(progress, set_id) ==> record_after(progress, set_id) == progress,
        !levelset::completed(progress, set_id) ==> text::lines_of(record_after(progress, set_id))
            == text::lines_of(progress).push(set_id),
{
    if levelset::completed(progress, set_id) {
        assert(record_after(progress, set_id) == progress);
    } else {
        text::law_lines_concatenate(progress, set_id.push('\n'));
        text::law_one_line_reads_back(set_id);
        assert(text::lines_of(progress) + seq![set_id] == text::lines_of(progress).push(set_id));
    }
}

/// A set that was recorded as completed reads back as completed, and the
/// record stays one that sets can be added to.
pub proof fn law_recorded_set_is_completed(progress: Seq<char>, set_id: Seq<char>)
    requires
        text::line_ended(progress),
        text::fits_one_line(set_id),
    ensures
        levelset::completed(record_after(progress, set_id), set_id),
        text::line_ended(record_after(progress, set_id)),
{
    lemma_record_lines(progress, set_id);
    let lines = text::lines_of(progress);
    if !levelset::completed(progress, set_id) {
        assert(lines.push(set_id)[lines.len() as int] == set_id);
    }
}

/// Completion is tracked per set: recording one set changes nothing for any
/// other.
pub proof fn law_recording_keeps_other_sets(
    progress: Seq<char>,
    set_id: Seq<char>,
    other: Seq<char>,
)
    requires
        text::line_ended(progress),
        text::fits_one_line(set_id),
        other != set_id,
    ensures
        levelset::completed(record_after(progress, set_id), other) == levelset::completed(
            progress,
            other,
        ),
{
    lemma_record_lines(progress, set_id);
    let lines = text::lines_of(progress);
    if !levelset::completed(progress, set_id) {
        let longer = lines.push(set_id);
        if lines.contains(other) {
            let i = choose|i: int| 0 <= i < lines.len() && lines[i] == other;
            assert(longer[i] == other);
        }
        if longer.contains(other) {
            let i = choose|i: int| 0 <= i < longer.len() && longer[i] == other;
            assert(lines[i] == other);
        }
    }
}

/// Recording a set twice leaves the record as recording it once does.
pub proof fn law_recording_is_idempotent(progress: Seq<char>, set_id: Seq<char>)
    requires
        text::line_ended(progress),
        text::fits_one_line(set_id),
    ensures
        record_after(record_after(progress, set_id), set_id) == record_after(progress, set_id),
{
    law_recorded_set_is_completed(progress, set_id);
    lemma_record_lines(record_after(progress, set_id), set_id);
}

/// A session over a set of ten levels or fewer plays every level: positions
/// that are distinct and as many as there are levels leave none out.
pub proof fn law_small_session_plays_every_level(count: nat, picks: Seq<usize>, level: usize)
    requires
        chance::all_distinct(picks),
        picks.len() == levelset::session_length(count),
        forall|i: int| 0 <= i < picks.len() ==> (#[trigger] picks[i]) < count,
        count <= levelset::RANDOM_LEVELS,
        level < count,
    ensures
        picks.contains(level),
{
    let positions = picks.map_values(|pick: usize| pick as int);
    assert(positions.no_duplicates());
    positions.unique_seq_to_set();
    let drawn = positions.to_set();
    let all = vstd::set_lib::set_int_range(0, count as int);
    vstd::set_lib::lemma_int_range(0, count as int);
    assert(drawn.subset_of(all)) by {
        assert forall|p: int| drawn.contains(p) implies all.contains(p) by {
            let i = choose|i: int| 0 <= i < positions.len() && positions[i] == p;
            assert(picks[i] < count);
        }
    }
    vstd::set_lib::lemma_subset_equality(drawn, all);
    assert(drawn.contains(level as int));
    let i = choose|i: int| 0 <= i < positions.len() && positions[i] == level as int;
    assert(picks[i] == level);
}

/// Reading order of two bricks: row by row, and left to right in a row.
pub open spec fn reads_before(a: ExternalBrickSpawn, b: ExternalBrickSpawn) -> bool {
    a.y < b.y || (a.y == b.y && a.x < b.x)
}

proof fn lemma_bricks_in(bricks: Seq<Seq<char>>, bonus: Seq<Seq<char>>, count: nat)
    requires
        count <= GRID_WIDTH * GRID_HEIGHT,
    ensures
        forall|i: int, j: int|
            0 <= i < j < levelset::bricks_in(bricks, bonus, count).len() ==> reads_before(
                #[trigger] levelset::bricks_in(bricks, bonus, count)[i],
                #[trigger] levelset::bricks_in(bricks, bonus, count)[j],
            ),
        forall|i: int|
            0 <= i < levelset::bricks_in(bricks, bonus, count).len() ==> exists|cell: int|
                0 <= cell < count && levelset::brick_at(bricks, bonus, cell) == Some(
                    #[trigger] levelset::bricks_in(bricks, bonus, count)[i],
                ),
        forall|cell: int|
            0 <= cell < count ==> match #[trigger] levelset::brick_at(bricks, bonus, cell) {
                Some(brick) => levelset::bricks_in(bricks, bonus, count).contains(brick),
                None => true,
            },
    decreases count,
{
    if count > 0 {
        lemma_bricks_in(bricks, bonus, (count - 1) as nat);
        let before = levelset::bricks_in(bricks, bonus, (count - 1) as nat);
        let all = levelset::bricks_in(bricks, bonus, count);
        let last = levelset::brick_at(bricks, bonus, count - 1);
        if let Some(brick) = last {
            assert(all == before.push(brick));
            assert forall|i: int, j: int| 0 <= i < j < all.len() implies reads_before(
                #[trigger] all[i],
                #[trigger] all[j],
            ) by {
                if j == before.len() {
                    let cell = choose|cell: int|
                        0 <= cell < count - 1 && levelset::brick_at(bricks, bonus, cell) == Some(
                            before[i],
                        );
                    assert(cell / 14 < (count - 1) as int / 14 || (cell / 14 == (count - 1) as int
                        / 14 && cell % 14 < (count - 1) as int % 14));
                }
            }
            assert forall|i: int| 0 <= i < all.len() implies exists|cell: int|
                0 <= cell < count && levelset::brick_at(bricks, bonus, cell) == Some(
                    #[trigger] all[i],
                ) by {
                if i == before.len() {
                    assert(levelset::brick_at(bricks, bonus, count - 1) == Some(all[i]));
                } else {
                    let cell = choose|cell: int|
                        0 <= cell < count - 1 && levelset::brick_at(bricks, bonus, cell) == Some(
                            before[i],
                        );
                    assert(levelset::brick_at(bricks, bonus, cell) == Some(all[i]));
                }
            }
            assert(all[before.len() as int] == brick);
            assert forall|b: ExternalBrickSpawn| before.contains(b) implies all.contains(b) by {
                let i = choose|i: int| 0 <= i < before.len() && before[i] == b;
                assert(all[i] == b);
            }
        }
    }
}

/// The bricks of a level are exactly the bricks of its grid cells: each stands
/// in a cell of the grid, each cell that holds a brick gives one, and they come
/// in reading order, so no two share a place.
pub proof fn law_level_bricks_are_its_cells(bricks: Seq<Seq<char>>, bonus: Seq<Seq<char>>)
    ensures
        ({
            let cells = (GRID_WIDTH * GRID_HEIGHT) as nat;
            let spawns = levelset::bricks_in(bricks, bonus, cells);
            &&& forall|i: int, j: int|
                0 <= i < j < spawns.len() ==> reads_before(
                    #[trigger] spawns[i],
                    #[trigger] spawns[j],
                )
            &&& forall|i: int|
                0 <= i < spawns.len() ==> exists|cell: int|
                    0 <= cell < cells && levelset::brick_at(bricks, bonus, cell) == Some(
                        #[trigger] spawns[i],
                    )
            &&& forall|cell: int|
                0 <= cell < cells ==> match #[trigger] levelset::brick_at(bricks, bonus, cell) {
                    Some(brick) => spawns.contains(brick),
                    None => true,
                }
        }),
{
    lemma_bricks_in(bricks, bonus, (GRID_WIDTH * GRID_HEIGHT) as nat);
}

/// How many cells of a row are warned about.
pub open spec fn warned_in_row(table: GridTable, cells: Seq<char>) -> nat
    decreases cells.len(),
{
    if cells.len() == 0 {
        0
    } else {
        warned_in_row(table, cells.drop_last()) + if levelset::cell_reason(
            table,
            cells.last(),
        ) is Some {
            1nat
        } else {
            0nat
        }
    }
}

/// How many cells of a grid are warned about.
pub open spec fn warned_in_grid(table: GridTable, rows: Seq<Seq<char>>) -> nat
    decreases rows.len(),
{
    if rows.len() == 0 {
        0
    } else {
        warned_in_grid(table, rows.drop_last()) + warned_in_row(table, rows.last())
    }
}

proof fn lemma_row_warnings(source: Seq<char>, line_no: nat, table: GridTable, cells: Seq<char>)
    ensures
        levelset::row_warnings(source, line_no, table, cells).len() == warned_in_row(table, cells),
    decreases cells.len(),
{
    if cells.len() > 0 {
        lemma_row_warnings(source, line_no, table, cells.drop_last());
    }
}

/// Every cell that maps to nothing is warned about once, and no other cell is.
pub proof fn law_one_warning_per_unmapped_cell(
    source: Seq<char>,
    lines: Seq<Seq<char>>,
    start: int,
    rows: nat,
    table: GridTable,
)
    ensures
        levelset::grid_warnings(source, lines, start, rows, table).len() == warned_in_grid(
            table,
            levelset::grid_cells(lines, start, rows),
        ),
    decreases rows,
{
    if rows > 0 {
        let cells = levelset::grid_cells(lines, start, rows);
        let above = (rows - 1) as nat;
        law_one_warning_per_unmapped_cell(source, lines, start, above, table);
        assert(cells.drop_last() == levelset::grid_cells(lines, start, above));
        lemma_row_warnings(
            source,
            (start + rows) as nat,
            table,
            levelset::row_cells(lines[start + rows - 1]),
        );
    }
}

/// A file of `n` lines holds at most `n / 41` levels: a level cut short by the
/// end of the file is not read.
pub proof fn law_levels_are_whole_blocks(source: Seq<char>, lines: Seq<Seq<char>>, start: int)
    requires
        0 <= start <= lines.len(),
    ensures
        start + levelset::blocks_from(source, lines, start).levels.len() * BLOCK_LINES
            <= lines.len(),
    decreases lines.len() - start,
{
    if levelset::block_at(source, lines, start).level is Some {
        law_levels_are_whole_blocks(source, lines, start + BLOCK_LINES);
    }
}

proof fn lemma_shifted_grid_warnings(
    source: Seq<char>,
    before: Seq<Seq<char>>,
    lines: Seq<Seq<char>>,
    start: int,
    table: GridTable,
)
    requires
        0 <= start,
    ensures
        ({
            let all = before + lines;
            let rows = levelset::rows_present(lines, start);
            let moved = before.len() + start;
            &&& levelset::rows_present(all, moved) == rows
            &&& levelset::grid_warnings(source, all, moved, rows, table).len()
                == levelset::grid_warnings(source, lines, start, rows, table).len()
        }),
{
    let all = before + lines;
    let rows = levelset::rows_present(lines, start);
    let moved = before.len() + start;
    law_one_warning_per_unmapped_cell(source, all, moved, rows, table);
    law_one_warning_per_unmapped_cell(source, lines, start, rows, table);
    assert(levelset::grid_cells(all, moved, rows) == levelset::grid_cells(lines, start, rows));
}

proof fn lemma_shifted_block(
    source: Seq<char>,
    before: Seq<Seq<char>>,
    lines: Seq<Seq<char>>,
    start: int,
)
    requires
        0 <= start,
    ensures
        levelset::block_at(source, before + lines, before.len() + start).level
            == levelset::block_at(source, lines, start).level,
        levelset::block_at(source, before + lines, before.len() + start).warnings.len()
            == levelset::block_at(source, lines, start).warnings.len(),
{
    let all = before + lines;
    let moved = before.len() + start;
    lemma_shifted_grid_warnings(source, before, lines, start + 4, GridTable::Brick);
    lemma_shifted_grid_warnings(source, before, lines, start + 23, GridTable::Bonus);
    assert forall|i: int, label: Seq<char>| 0 <= i implies #[trigger] levelset::labelled(
        all,
        before.len() + i,
        label,
    ) == levelset::labelled(lines, i, label) by {
        if i < lines.len() {
            assert(all[before.len() + i] == lines[i]);
        }
    }
    assert(levelset::labelled(all, before.len() + start, "Level:"@) == levelset::labelled(
        lines,
        start,
        "Level:"@,
    ));
    assert(levelset::labelled(all, before.len() + (start + 3), "Bricks:"@) == levelset::labelled(
        lines,
        start + 3,
        "Bricks:"@,
    ));
    assert(levelset::labelled(all, before.len() + (start + 22), "Bonus:"@) == levelset::labelled(
        lines,
        start + 22,
        "Bonus:"@,
    ));
    if start + BLOCK_LINES <= lines.len() {
        assert(levelset::grid_cells(all, moved + 4, 18) == levelset::grid_cells(
            lines,
            start + 4,
            18,
        ));
        assert(levelset::grid_cells(all, moved + 23, 18) == levelset::grid_cells(
            lines,
            start + 23,
            18,
        ));
        assert(all[moved + 1] == lines[start + 1]);
        assert(all[moved + 2] == lines[start + 2]);
    }
}

/// Lines in front of a list of blocks change none of its levels and leave as
/// many warnings, at other line numbers.
pub proof fn law_levels_do_not_depend_on_lines_before(
    source: Seq<char>,
    before: Seq<Seq<char>>,
    lines: Seq<Seq<char>>,
    start: int,
)
    requires
        0 <= start,
    ensures
        levelset::blocks_from(source, before + lines, before.len() + start).levels
            == levelset::blocks_from(source, lines, start).levels,
        levelset::blocks_from(source, before + lines, before.len() + start).warnings.len()
            == levelset::blocks_from(source, lines, start).warnings.len(),
    decreases lines.len() - start,
{
    lemma_shifted_block(source, before, lines, start);
    if levelset::block_at(source, lines, start).level is Some {
        law_levels_do_not_depend_on_lines_before(source, before, lines, start + BLOCK_LINES);
        assert(before.len() + (start + BLOCK_LINES) == (before.len() + start) + BLOCK_LINES);
    }
}

/// A version header in front of a levelset changes none of its levels and
/// leaves as many warnings, whichever way its line is ended.
pub proof fn law_version_header_changes_no_level(
    source: Seq<char>,
    header: Seq<char>,
    content: Seq<char>,
)
    requires
        !header.contains('\n'),
        text::begins_with(header, "Version:"@),
        levelset::first_block(text::lines_of(content)) == 0,
    ensures
        levelset::levelset_of(source, header.push('\n') + content).levels
            == levelset::levelset_of(source, content).levels,
        levelset::levelset_of(source, header.push('\n') + content).warnings.len()
            == levelset::levelset_of(source, content).warnings.len(),
{
    let lines = text::lines_of(content);
    let line = text::without_cr(header);
    text::law_lines_concatenate(header.push('\n'), content);
    text::law_one_line_reads_back(header);
    let all = seq![line] + lines;
    assert(all[0] == line);
    assert(text::begins_with(line, "Version:"@)) by {
        reveal_strlit("Version:");
        assert(header.take(8)[7] == header[7]);
        assert(line.take(8) == header.take(8));
    }
    law_levels_do_not_depend_on_lines_before(source, seq![line], lines, 0);
}

proof fn lemma_same_grid_warnings(
    source: Seq<char>,
    first: Seq<Seq<char>>,
    second: Seq<Seq<char>>,
    start: int,
    rows: nat,
    table: GridTable,
)
    requires
        forall|i: int| start <= i < start + rows ==> #[trigger] first[i] == second[i],
    ensures
        levelset::grid_warnings(source, first, start, rows, table) == levelset::grid_warnings(
            source,
            second,
            start,
            rows,
            table,
        ),
    decreases rows,
{
    if rows > 0 {
        lemma_same_grid_warnings(source, first, second, start, (rows - 1) as nat, table);
        assert(first[start + rows - 1] == second[start + rows - 1]);
    }
}

proof fn lemma_extended_block(
    source: Seq<char>,
    lines: Seq<Seq<char>>,
    after: Seq<Seq<char>>,
    start: int,
)
    requires
        0 <= start,
        levelset::block_at(source, lines, start).level is Some,
    ensures
        levelset::block_at(source, lines + after, start) == levelset::block_at(
            source,
            lines,
            start,
        ),
{
    let all = lines + after;
    lemma_same_grid_warnings(source, all, lines, start + 4, 18, GridTable::Brick);
    lemma_same_grid_warnings(source, all, lines, start + 23, 18, GridTable::Bonus);
    assert(all[start] == lines[start]);
    assert(all[start + 1] == lines[start + 1]);
    assert(all[start + 2] == lines[start + 2]);
    assert(all[start + 3] == lines[start + 3]);
    assert(all[start + 22] == lines[start + 22]);
    assert(levelset::grid_cells(all, start + 4, 18) == levelset::grid_cells(lines, start + 4, 18));
    assert(levelset::grid_cells(all, start + 23, 18) == levelset::grid_cells(
        lines,
        start + 23,
        18,
    ));
}

/// Whether the lines from `start` on are complete level blocks and nothing
/// else.
pub open spec fn only_blocks(source: Seq<char>, lines: Seq<Seq<char>>, start: int) -> bool {
    start + levelset::blocks_from(source, lines, start).levels.len() * BLOCK_LINES == lines.len()
}

/// Blocks may follow one another without end: the levels of two runs of blocks
/// one after the other are the levels of the first and then of the second. The
/// warnings begin with those of the first, and there are as many as in both.
pub proof fn law_blocks_concatenate(
    source: Seq<char>,
    first: Seq<Seq<char>>,
    second: Seq<Seq<char>>,
    start: int,
)
    requires
        0 <= start <= first.len(),
        only_blocks(source, first, start),
    ensures
        levelset::blocks_from(source, first + second, start).levels == levelset::blocks_from(
            source,
            first,
            start,
        ).levels + levelset::blocks_from(source, second, 0).levels,
        levelset::blocks_from(source, first, start).warnings.is_prefix_of(
            levelset::blocks_from(source, first + second, start).warnings,
        ),
        levelset::blocks_from(source, first + second, start).warnings.len()
            == levelset::blocks_from(source, first, start).warnings.len() + levelset::blocks_from(
            source,
            second,
            0,
        ).warnings.len(),
    decreases first.len() - start,
{
    let head = levelset::blocks_from(source, first, start);
    let tail = levelset::blocks_from(source, second, 0);
    match levelset::block_at(source, first, start).level {
        Some(level) => {
            let rest = levelset::blocks_from(source, first, start + BLOCK_LINES);
            lemma_extended_block(source, first, second, start);
            assert(head.levels == seq![level] + rest.levels);
            law_blocks_concatenate(source, first, second, start + BLOCK_LINES);
            assert(seq![level] + (rest.levels + tail.levels) == head.levels + tail.levels);
        },
        None => {
            assert(start == first.len());
            law_levels_do_not_depend_on_lines_before(source, first, second, 0);
            assert(head.levels + tail.levels == tail.levels);
        },
    }
}

/// Two levelset texts one after the other hold the levels of both, provided
/// the first is nothing but complete blocks, behind a header or not, and the
/// second has no header. They leave as many warnings as both, and those of the
/// first as they are.
pub proof fn law_levelsets_concatenate(source: Seq<char>, first: Seq<char>, second: Seq<char>)
    requires
        text::line_ended(first),
        only_blocks(source, text::lines_of(first), levelset::first_block(text::lines_of(first))),
        levelset::first_block(text::lines_of(second)) == 0,
    ensures
        levelset::levelset_of(source, first + second).levels == levelset::levelset_of(
            source,
            first,
        ).levels + levelset::levelset_of(source, second).levels,
        levelset::levelset_of(source, first).warnings.is_prefix_of(
            levelset::levelset_of(source, first + second).warnings,
        ),
        levelset::levelset_of(source, first + second).warnings.len() == levelset::levelset_of(
            source,
            first,
        ).warnings.len() + levelset::levelset_of(source, second).warnings.len(),
{
    let a = text::lines_of(first);
    let b = text::lines_of(second);
    text::law_lines_concatenate(first, second);
    if a.len() == 0 {
        assert(a + b == b);
    } else {
        assert((a + b)[0] == a[0]);
    }
    law_blocks_concatenate(source, a, b, levelset::first_block(a));
}

/// The brick characters: walls and what only an energy ball breaks are
/// indestructible, what takes several hits is armored, the other bricks are
/// normal, a dot and a blank are empty, and every other character is warned
/// about and left empty.
pub proof fn law_brick_characters(ch: char)
    ensures
        levelset::kind_of(ch) == Some(BrickKind::Indestructible) <==> seq!['E', '#', '@'].contains(
            ch,
        ),
        levelset::kind_of(ch) == Some(BrickKind::Armored) <==> seq![
            'b',
            'c',
            'v',
            'y',
            'z',
        ].contains(ch),
        levelset::kind_of(ch) == Some(BrickKind::Normal) <==> 'd' <= ch <= 'k' || 'F' <= ch <= 'K'
            || seq!['a', 'x', '*', '!'].contains(ch),
        levelset::brick_reason(ch) is Some <==> levelset::kind_of(ch) is None && ch != '.' && ch
            != ' ',
        levelset::brick_reason(ch) is Some ==> levelset::brick_reason(ch) == Some(
            "is unsupported -> mapped to empty"@,
        ),
{
    let walls = seq!['E', '#', '@'];
    assert(walls[0] == 'E' && walls[1] == '#' && walls[2] == '@');
    let armored = seq!['b', 'c', 'v', 'y', 'z'];
    assert(armored[0] == 'b' && armored[1] == 'c' && armored[2] == 'v' && armored[3] == 'y'
        && armored[4] == 'z');
    let normal = seq!['a', 'x', '*', '!'];
    assert(normal[0] == 'a' && normal[1] == 'x' && normal[2] == '*' && normal[3] == '!');
}

/// A grown brick means the same in capitals as in small letters.
pub proof fn law_grown_bricks_have_two_names(ch: char)
    requires
        'F' <= ch <= 'K',
    ensures
        levelset::brick_cell_of(ch) == levelset::brick_cell_of((ch as int + 32) as char),
{
}

/// The bonus characters: a longer paddle, a slower ball and an extra ball are
/// the power-ups that the game has, a dot is empty, and every other character
/// drops nothing and is warned about.
pub proof fn law_bonus_characters(ch: char)
    ensures
        levelset::powerup_of(ch) == Some(PowerUpKind::Widen) <==> ch == '+',
        levelset::powerup_of(ch) == Some(PowerUpKind::Slow) <==> ch == '<',
        levelset::powerup_of(ch) == Some(PowerUpKind::Multiball) <==> ch == 'b',
        levelset::bonus_reason(ch) is Some <==> levelset::powerup_of(ch) is None && ch != '.',
        '0' <= ch <= '5' || seq![
            'g',
            '-',
            'l',
            's',
            'm',
            'w',
            'f',
            'p',
            '?',
            '>',
            'j',
            'd',
            'c',
            '~',
            '!',
            '&',
            '*',
            '}',
            '{',
            'W',
        ].contains(ch) <==> levelset::bonus_reason(ch) == Some(
            "has no matching power-up -> no drop"@,
        ),
        levelset::bonus_reason(ch) is Some ==> levelset::bonus_reason(ch) == Some(
            "has no matching power-up -> no drop"@,
        ) || levelset::bonus_reason(ch) == Some("is unsupported -> no drop"@),
{
    reveal_strlit("has no matching power-up -> no drop");
    reveal_strlit("is unsupported -> no drop");
    let known = seq![
        'g',
        '-',
        'l',
        's',
        'm',
        'w',
        'f',
        'p',
        '?',
        '>',
        'j',
        'd',
        'c',
        '~',
        '!',
        '&',
        '*',
        '}',
        '{',
        'W',
    ];
    assert(known[0] == 'g' && known[1] == '-' && known[2] == 'l' && known[3] == 's' && known[4]
        == 'm' && known[5] == 'w' && known[6] == 'f' && known[7] == 'p' && known[8] == '?'
        && known[9] == '>' && known[10] == 'j' && known[11] == 'd' && known[12] == 'c'
        && known[13] == '~' && known[14] == '!' && known[15] == '&' && known[16] == '*'
        && known[17] == '}' && known[18] == '{' && known[19] == 'W');
    assert("has no matching power-up -> no drop"@.len() != "is unsupported -> no drop"@.len());
}

/// The character in column `col` of a line; a line that is too short goes on
/// with dots.
pub open spec fn char_at(line: Seq<char>, col: int) -> char {
    if col < line.len() {
        line[col]
    } else {
        '.'
    }
}

/// The brick of a cell, told from the character of the brick grid and the one
/// in the same place of the bonus grid.
pub open spec fn paired(row: int, col: int, brick: char, bonus: char) -> Option<
    ExternalBrickSpawn,
> {
    match levelset::kind_of(brick) {
        Some(kind) => Some(
            ExternalBrickSpawn {
                x: (52 * col) as i64,
                y: (22 * row) as i64,
                kind,
                powerup: levelset::powerup_of(bonus),
            },
        ),
        None => None,
    }
}

proof fn lemma_cell_is_paired(
    bricks: Seq<Seq<char>>,
    bonus: Seq<Seq<char>>,
    row: int,
    col: int,
)
    requires
        0 <= row < 18,
        0 <= col < 14,
    ensures
        levelset::brick_at(bricks, bonus, row * 14 + col) == paired(
            row,
            col,
            bricks[row][col],
            bonus[row][col],
        ),
{
    assert((row * 14 + col) / 14 == row && (row * 14 + col) % 14 == col);
}

/// Every cell of a level that holds a brick spawns one at its own place, with
/// the power-up of the same cell of the bonus grid and no other, or none if
/// that cell has none.
pub proof fn law_bricks_carry_the_bonus_of_their_cell(
    bricks: Seq<Seq<char>>,
    bonus: Seq<Seq<char>>,
    row: int,
    col: int,
)
    requires
        0 <= row < 18,
        0 <= col < 14,
    ensures
        ({
            let spawns = levelset::bricks_in(bricks, bonus, 252);
            let kind = levelset::kind_of(bricks[row][col]);
            &&& kind is Some ==> exists|i: int|
                {
                    &&& 0 <= i < spawns.len()
                    &&& (#[trigger] spawns[i]).x == 52 * col
                    &&& spawns[i].y == 22 * row
                    &&& spawns[i].kind == kind->0
                    &&& spawns[i].powerup == levelset::powerup_of(bonus[row][col])
                }
            &&& forall|i: int|
                0 <= i < spawns.len() && (#[trigger] spawns[i]).x == 52 * col && spawns[i].y == 22
                    * row ==> {
                    &&& kind == Some(spawns[i].kind)
                    &&& spawns[i].powerup == levelset::powerup_of(bonus[row][col])
                }
        }),
{
    let spawns = levelset::bricks_in(bricks, bonus, 252);
    lemma_cell_is_paired(bricks, bonus, row, col);
    lemma_bricks_in(bricks, bonus, 252);
    let cell = row * 14 + col;
    assert(0 <= cell < 252);
    if let Some(brick) = levelset::brick_at(bricks, bonus, cell) {
        assert(spawns.contains(brick));
        let i = choose|i: int| 0 <= i < spawns.len() && spawns[i] == brick;
        assert(spawns[i].x == 52 * col);
    }
    assert forall|i: int|
        0 <= i < spawns.len() && (#[trigger] spawns[i]).x == 52 * col && spawns[i].y == 22
            * row implies levelset::kind_of(bricks[row][col]) == Some(spawns[i].kind)
        && spawns[i].powerup == levelset::powerup_of(bonus[row][col]) by {
        let (r, c) = lemma_cell_of_brick(bricks, bonus, i);
        assert(r == row && c == col);
    }
}

/// The row and the column of a brick.
proof fn lemma_cell_of_brick(bricks: Seq<Seq<char>>, bonus: Seq<Seq<char>>, i: int) -> (place: (
    int,
    int,
))
    requires
        0 <= i < levelset::bricks_in(bricks, bonus, 252).len(),
    ensures
        0 <= place.0 < 18,
        0 <= place.1 < 14,
        Some(levelset::bricks_in(bricks, bonus, 252)[i]) == paired(
            place.0,
            place.1,
            bricks[place.0][place.1],
            bonus[place.0][place.1],
        ),
{
    let brick = levelset::bricks_in(bricks, bonus, 252)[i];
    lemma_bricks_in(bricks, bonus, 252);
    assert(exists|cell: int|
        0 <= cell < 252 && levelset::brick_at(bricks, bonus, cell) == Some(brick));
    let cell = choose|cell: int|
        0 <= cell < 252 && levelset::brick_at(bricks, bonus, cell) == Some(brick);
    assert(cell == cell / 14 * 14 + cell % 14);
    lemma_cell_is_paired(bricks, bonus, cell / 14, cell % 14);
    (cell / 14, cell % 14)
}

/// Every brick of a level stands in one of its cells.
pub proof fn law_bricks_stand_in_cells(bricks: Seq<Seq<char>>, bonus: Seq<Seq<char>>, i: int)
    requires
        0 <= i < levelset::bricks_in(bricks, bonus, 252).len(),
    ensures
        exists|row: int, col: int|
            {
                &&& 0 <= row < 18
                &&& 0 <= col < 14
                &&& Some(levelset::bricks_in(bricks, bonus, 252)[i]) == #[trigger] paired(
                    row,
                    col,
                    bricks[row][col],
                    bonus[row][col],
                )
            },
{
    let (row, col) = lemma_cell_of_brick(bricks, bonus, i);
    assert(paired(row, col, bricks[row][col], bonus[row][col]) is Some);
}

/// Changing cells of the bonus grid changes no brick but its power-up, and not
/// that of a brick whose own cell stays as it was.
pub proof fn law_bonuses_only_touch_their_brick(
    bricks: Seq<Seq<char>>,
    first: Seq<Seq<char>>,
    second: Seq<Seq<char>>,
    i: int,
)
    requires
        0 <= i < levelset::bricks_in(bricks, first, 252).len(),
    ensures
        ({
            let before = levelset::bricks_in(bricks, first, 252);
            let after = levelset::bricks_in(bricks, second, 252);
            let row = before[i].y as int / 22;
            let col = before[i].x as int / 52;
            &&& after.len() == before.len()
            &&& after[i].x == before[i].x
            &&& after[i].y == before[i].y
            &&& after[i].kind == before[i].kind
            &&& first[row][col] == second[row][col] ==> after[i] == before[i]
        }),
{
    lemma_bonuses_only_touch_their_brick(bricks, first, second, 252, i);
}

proof fn lemma_bonuses_only_touch_their_brick(
    bricks: Seq<Seq<char>>,
    first: Seq<Seq<char>>,
    second: Seq<Seq<char>>,
    count: nat,
    i: int,
)
    requires
        count <= 252,
    ensures
        ({
            let before = levelset::bricks_in(bricks, first, count);
            let after = levelset::bricks_in(bricks, second, count);
            let row = before[i].y as int / 22;
            let col = before[i].x as int / 52;
            &&& after.len() == before.len()
            &&& 0 <= i < before.len() ==> {
                &&& after[i].x == before[i].x
                &&& after[i].y == before[i].y
                &&& after[i].kind == before[i].kind
                &&& first[row][col] == second[row][col] ==> after[i] == before[i]
            }
        }),
    decreases count,
{
    if count > 0 {
        let cell = count - 1;
        lemma_bonuses_only_touch_their_brick(bricks, first, second, cell as nat, i);
        lemma_cell_is_paired(bricks, first, cell / 14, cell % 14);
        lemma_cell_is_paired(bricks, second, cell / 14, cell % 14);
        assert(cell == cell / 14 * 14 + cell % 14);
    }
}

/// A block of 41 lines that has its three labels in their places is a level,
/// and nothing else is. Its author and its name are the two lines after the
/// first label.
pub proof fn law_blocks_are_labelled(source: Seq<char>, lines: Seq<Seq<char>>, start: int)
    requires
        0 <= start,
    ensures
        ({
            let level = levelset::block_at(source, lines, start).level;
            &&& level is Some <==> {
                &&& start + 41 <= lines.len()
                &&& text::begins_with(lines[start], "Level:"@)
                &&& text::begins_with(lines[start + 3], "Bricks:"@)
                &&& text::begins_with(lines[start + 22], "Bonus:"@)
            }
            &&& level is Some ==> level->0.author == lines[start + 1] && level->0.name
                == lines[start + 2]
        }),
{
}

/// A brick of a level is told from two characters of the file: the one of its
/// cell in the brick grid, which begins at the fifth line of the block, and the
/// one in the same place of the bonus grid, 19 lines further down.
pub proof fn law_levels_are_read_from_their_grids(
    source: Seq<char>,
    lines: Seq<Seq<char>>,
    start: int,
    row: int,
    col: int,
)
    requires
        0 <= start,
        levelset::block_at(source, lines, start).level is Some,
        0 <= row < 18,
        0 <= col < 14,
    ensures
        ({
            let spawns = levelset::block_at(source, lines, start).level->0.bricks;
            let brick = char_at(lines[start + 4 + row], col);
            let bonus = char_at(lines[start + 23 + row], col);
            &&& levelset::kind_of(brick) is Some <==> exists|i: int|
                {
                    &&& 0 <= i < spawns.len()
                    &&& (#[trigger] spawns[i]).x == 52 * col
                    &&& spawns[i].y == 22 * row
                }
            &&& forall|i: int|
                0 <= i < spawns.len() && (#[trigger] spawns[i]).x == 52 * col && spawns[i].y == 22
                    * row ==> {
                    &&& levelset::kind_of(brick) == Some(spawns[i].kind)
                    &&& levelset::powerup_of(bonus) == spawns[i].powerup
                }
            &&& forall|i: int, j: int|
                0 <= i < j < spawns.len() ==> reads_before(
                    #[trigger] spawns[i],
                    #[trigger] spawns[j],
                )
        }),
{
    let bricks = levelset::grid_cells(lines, start + 4, 18);
    let bonus = levelset::grid_cells(lines, start + 23, 18);
    assert(levelset::block_at(source, lines, start).level->0.bricks == levelset::bricks_in(
        bricks,
        bonus,
        252,
    ));
    assert(bricks[row][col] == char_at(lines[start + 4 + row], col));
    assert(bonus[row][col] == char_at(lines[start + 23 + row], col));
    law_bricks_carry_the_bonus_of_their_cell(bricks, bonus, row, col);
    lemma_bricks_in(bricks, bonus, 252);
}

/// Every brick of a level that was read stands in one of the 18 rows and 14
/// columns.
pub proof fn law_bricks_that_were_read_stand_in_cells(
    source: Seq<char>,
    lines: Seq<Seq<char>>,
    start: int,
    i: int,
)
    requires
        0 <= start,
        levelset::block_at(source, lines, start).level is Some,
        0 <= i < levelset::block_at(source, lines, start).level->0.bricks.len(),
    ensures
        ({
            let brick = levelset::block_at(source, lines, start).level->0.bricks[i];
            &&& 0 <= brick.x <= 52 * 13 && brick.x as int % 52 == 0
            &&& 0 <= brick.y <= 22 * 17 && brick.y as int % 22 == 0
        }),
{
    let bricks = levelset::grid_cells(lines, start + 4, 18);
    let bonus = levelset::grid_cells(lines, start + 23, 18);
    law_bricks_stand_in_cells(bricks, bonus, i);
}

/// Level number `k` of a file is the block that begins 41 lines after the one
/// before it, and the first block that is no level ends the file.
pub proof fn law_levels_follow_one_another(
    source: Seq<char>,
    lines: Seq<Seq<char>>,
    start: int,
    k: int,
)
    requires
        0 <= start,
        0 <= k,
    ensures
        ({
            let levels = levelset::blocks_from(source, lines, start).levels;
            &&& k < levels.len() ==> levelset::block_at(source, lines, start + 41 * k).level
                == Some(levels[k])
            &&& k == levels.len() ==> levelset::block_at(source, lines, start + 41 * k).level
                is None
        }),
    decreases lines.len() - start,
{
    if levelset::block_at(source, lines, start).level is Some {
        if k > 0 {
            law_levels_follow_one_another(source, lines, start + 41, k - 1);
        }
    }
}

/// The blocks of a file begin at its first line, or at its second if the first
/// is a version header.
pub proof fn law_files_begin_with_a_block_or_a_header(source: Seq<char>, content: Seq<char>)
    ensures
        ({
            let lines = text::lines_of(content);
            let headed = lines.len() > 0 && text::begins_with(lines[0], "Version:"@);
            &&& headed ==> levelset::levelset_of(source, content) == levelset::blocks_from(
                source,
                lines,
                1,
            )
            &&& !headed ==> levelset::levelset_of(source, content) == levelset::blocks_from(
                source,
                lines,
                0,
            )
        }),
{
}

/// The warnings of a file are those of its blocks, one after the other, each of
/// which warns about its brick grid first and then about its bonus grid.
pub proof fn law_warnings_come_block_by_block(source: Seq<char>, lines: Seq<Seq<char>>, start: int)
    requires
        0 <= start,
    ensures
        ({
            let warnings = levelset::blocks_from(source, lines, start).warnings;
            let block = levelset::block_at(source, lines, start);
            let here = block.warnings;
            &&& block.level is Some ==> {
                &&& warnings == here + levelset::blocks_from(source, lines, start + 41).warnings
                &&& here == levelset::grid_warnings(
                    source,
                    lines,
                    start + 4,
                    18,
                    GridTable::Brick,
                ) + levelset::grid_warnings(source, lines, start + 23, 18, GridTable::Bonus)
            }
            &&& block.level is None ==> warnings == here
            &&& start >= lines.len() || !text::begins_with(lines[start], "Level:"@)
                ==> here.len() == 0
        }),
{
}

/// Every cell of a grid that maps to nothing has its warning, which names the
/// file, the line counted from one, the grid, the character and the column.
pub proof fn law_unmapped_cells_are_warned_about(
    source: Seq<char>,
    lines: Seq<Seq<char>>,
    start: int,
    rows: nat,
    table: GridTable,
    row: int,
    col: int,
)
    requires
        0 <= start,
        0 <= row < rows,
        0 <= col < 14,
    ensures
        ({
            let ch = char_at(lines[start + row], col);
            let grid = match table {
                GridTable::Brick => "brick"@,
                GridTable::Bonus => "bonus"@,
            };
            let reason = match table {
                GridTable::Brick => levelset::brick_reason(ch),
                GridTable::Bonus => levelset::bonus_reason(ch),
            };
            reason is Some ==> levelset::grid_warnings(source, lines, start, rows, table).contains(
                source + ":"@ + text::decimal((start + row + 1) as nat) + ": "@ + grid + " char "@
                    + text::quoted_char(ch) + " at col "@ + text::decimal(col as nat) + " "@
                    + reason->0,
            )
        }),
    decreases rows,
{
    let here = levelset::row_cells(lines[start + rows - 1]);
    let above = levelset::grid_warnings(source, lines, start, (rows - 1) as nat, table);
    let last = levelset::row_warnings(source, (start + rows) as nat, table, here);
    let all = levelset::grid_warnings(source, lines, start, rows, table);
    let ch = char_at(lines[start + row], col);
    if levelset::cell_reason(table, ch) is Some {
        let warning = levelset::warning_text(
            source,
            (start + row + 1) as nat,
            table,
            ch,
            col as nat,
            levelset::cell_reason(table, ch)->0,
        );
        if row < rows - 1 {
            law_unmapped_cells_are_warned_about(
                source,
                lines,
                start,
                (rows - 1) as nat,
                table,
                row,
                col,
            );
            let i = choose|i: int| 0 <= i < above.len() && above[i] == warning;
            assert(all[i] == warning);
        } else {
            assert(here[col] == ch);
            lemma_warned_in_row(source, (start + rows) as nat, table, here, col);
            let i = choose|i: int| 0 <= i < last.len() && last[i] == warning;
            assert(all[above.len() + i] == warning);
        }
    }
}

proof fn lemma_warned_in_row(
    source: Seq<char>,
    line_no: nat,
    table: GridTable,
    cells: Seq<char>,
    col: int,
)
    requires
        0 <= col < cells.len(),
        levelset::cell_reason(table, cells[col]) is Some,
    ensures
        levelset::row_warnings(source, line_no, table, cells).contains(
            levelset::warning_text(
                source,
                line_no,
                table,
                cells[col],
                col as nat,
                levelset::cell_reason(table, cells[col])->0,
            ),
        ),
    decreases cells.len(),
{
    let before = levelset::row_warnings(source, line_no, table, cells.drop_last());
    let all = levelset::row_warnings(source, line_no, table, cells);
    let warning = levelset::warning_text(
        source,
        line_no,
        table,
        cells[col],
        col as nat,
        levelset::cell_reason(table, cells[col])->0,
    );
    if col < cells.len() - 1 {
        lemma_warned_in_row(source, line_no, table, cells.drop_last(), col);
        let i = choose|i: int| 0 <= i < before.len() && before[i] == warning;
        assert(all[i] == warning);
    } else {
        assert(all[before.len() as int] == warning);
    }
}

/// A warning that takes a quoted character says the same as the warnings of a
/// file.
pub proof fn law_warnings_quote_their_character(
    source: Seq<char>,
    line_no: nat,
    table: GridTable,
    quoted: Seq<char>,
    col: nat,
    reason: Seq<char>,
)
    ensures
        ({
            let grid = match table {
                GridTable::Brick => "brick"@,
                GridTable::Bonus => "bonus"@,
            };
            levelset::warning_about(source, line_no, table, quoted, col, reason) == source + ":"@
                + text::decimal(line_no) + ": "@ + grid + " char "@ + quoted + " at col "@
                + text::decimal(col) + " "@ + reason
        }),
{
}

/// A cell is told from its own character alone, warned about or not.
pub proof fn law_cells_warn_by_their_character(table: GridTable, ch: char)
    ensures
        levelset::cell_reason(table, ch) == match table {
            GridTable::Brick => levelset::brick_reason(ch),
            GridTable::Bonus => levelset::bonus_reason(ch),
        },
{
}

/// A session plays the levels at the drawn positions, in the order of the
/// draws, and as many as there are, up to ten.
pub proof fn law_sessions_play_the_drawn_levels(
    levels: Seq<LevelView>,
    picks: Seq<usize>,
    i: int,
    count: nat,
)
    requires
        0 <= i < picks.len(),
    ensures
        levelset::levels_at(levels, picks).len() == picks.len(),
        levelset::levels_at(levels, picks)[i] == levels[picks[i] as int],
        levelset::session_length(count) <= count,
        levelset::session_length(count) <= 10,
        levelset::session_length(count) == count || levelset::session_length(count) == 10,
{
}

/// A file name that ends in `.lbl`, in small letters or capitals, behind some
/// other character, is that of a levelset, and no other is.
pub proof fn law_levelset_names_end_in_lbl(stem: Seq<char>, dot: char, a: char, b: char, c: char)
    ensures
        levelset::is_levelset(stem + seq![dot, a, b, c]) <==> {
            &&& stem.len() > 0
            &&& dot == '.'
            &&& a == 'l' || a == 'L'
            &&& b == 'b' || b == 'B'
            &&& c == 'l' || c == 'L'
        },
        stem.len() < 4 ==> !levelset::is_levelset(stem),
{
    let name = stem + seq![dot, a, b, c];
    assert(name[name.len() - 4] == dot);
    assert(name[name.len() - 3] == a);
    assert(name[name.len() - 2] == b);
    assert(name[name.len() - 1] == c);
}

/// A set is completed if one of the lines of the record is its name and nothing
/// else.
pub proof fn law_records_list_sets_line_by_line(
    progress: Seq<char>,
    set_id: Seq<char>,
    other: Seq<char>,
)
    ensures
        levelset::completed(progress, other) <==> exists|i: int|
            0 <= i < text::lines_of(progress).len() && text::lines_of(progress)[i] == other,
        levelset::completed(progress, set_id) ==> levelset::completion_record(progress, set_id)
            == Seq::<char>::empty(),
        !levelset::completed(progress, set_id) ==> levelset::completion_record(progress, set_id)
            == set_id + seq!['\n'],
{
    assert(set_id.push('\n') == set_id + seq!['\n']);
}

/// A block that the end of the file cuts short, or that lacks a label, warns
/// about the grid lines that were read before that was found out, and about no
/// others.
pub proof fn law_incomplete_blocks_warn_about_what_was_read(
    source: Seq<char>,
    lines: Seq<Seq<char>>,
    start: int,
)
    requires
        0 <= start,
        start + 4 <= lines.len(),
        text::begins_with(lines[start], "Level:"@),
    ensures
        ({
            let warnings = levelset::block_at(source, lines, start).warnings;
            let bricks = text::begins_with(lines[start + 3], "Bricks:"@);
            let count = lines.len() as int;
            let bonus = start + 22 < count && text::begins_with(lines[start + 22], "Bonus:"@);
            &&& !bricks ==> warnings.len() == 0
            &&& bricks && count < start + 22 ==> warnings == levelset::grid_warnings(
                source,
                lines,
                start + 4,
                (count - start - 4) as nat,
                GridTable::Brick,
            )
            &&& bricks && count >= start + 22 && !bonus ==> warnings == levelset::grid_warnings(
                source,
                lines,
                start + 4,
                18,
                GridTable::Brick,
            )
            &&& bricks && bonus && count < start + 41 ==> warnings == levelset::grid_warnings(
                source,
                lines,
                start + 4,
                18,
                GridTable::Brick,
            ) + levelset::grid_warnings(
                source,
                lines,
                start + 23,
                (count - start - 23) as nat,
                GridTable::Bonus,
            )
        }),
{
}

/// The warnings of a grid come in reading order: those of the rows above first,
/// and in a row those of the columns to the left first.
pub proof fn law_warnings_come_in_reading_order(
    source: Seq<char>,
    lines: Seq<Seq<char>>,
    start: int,
    rows: nat,
    table: GridTable,
    line_no: nat,
    cells: Seq<char>,
    next: char,
)
    ensures
        levelset::grid_warnings(source, lines, start, rows, table).is_prefix_of(
            levelset::grid_warnings(source, lines, start, rows + 1, table),
        ),
        levelset::row_warnings(source, line_no, table, cells).is_prefix_of(
            levelset::row_warnings(source, line_no, table, cells.push(next)),
        ),
        levelset::grid_warnings(source, lines, start, 0, table).len() == 0,
{
    assert(cells.push(next).drop_last() == cells);
}

/// A session draws as many positions as it plays levels, among all levels of
/// the set.
pub proof fn law_sessions_draw_among_all_levels(rng: StdRng, count: usize)
    ensures
        count >= 10 ==> levelset::session_picks(rng, count) == chance::drawn_indices(
            rng,
            count,
            10,
        ),
        count < 10 ==> levelset::session_picks(rng, count) == chance::drawn_indices(
            rng,
            count,
            count,
        ),
{
}

/// The view of a levelset shows each of its levels, and of each level its
/// author, its name and its bricks, and every warning, in their order.
pub proof fn law_views_show_the_levelset(set: LevelSet, i: int, k: int)
    ensures
        set@.levels.len() == set.levels@.len(),
        set@.warnings.len() == set.warnings@.len(),
        0 <= i < set.levels@.len() ==> {
            &&& set@.levels[i] == set.levels@[i]@
            &&& set@.levels[i].author == set.levels@[i].author@
            &&& set@.levels[i].name == set.levels@[i].name@
            &&& set@.levels[i].bricks == set.levels@[i].bricks@
        },
        0 <= k < set.warnings@.len() ==> set@.warnings[k] == set.warnings@[k]@,
        levelset::level_views(set.levels@) == set@.levels,
{
}

/// A reason that is given as a string is its characters.
pub proof fn law_reasons_are_their_characters(reason: &str)
    ensures
        levelset::optional_text(Some(reason)) == Some(reason@),
        levelset::optional_text(None) is None,
{
}

} // verus!
