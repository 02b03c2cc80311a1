use std::collections::HashSet;

use arkanoid::events::PowerUpKind;
use arkanoid::levels::{BrickKind, BRICK_HEIGHT, BRICK_WIDTH};
use arkanoid::levelset::{
    bonus_cell, brick_cell, is_levelset_name, is_set_completed, mark_set_completed,
    parse_levelset, pick_levels, random10, warning_line, BonusCell, BrickCell,
    ExternalBrickSpawn, ExternalLevel, GridTable, LevelSet, GRID_HEIGHT,
};
use rand::rngs::StdRng;
use rand::SeedableRng;

/// A minimal but complete one-level file: a single `a` (normal) brick
/// at [0][0] with a `+` (Widen) bonus over it, an `E` (indestructible)
/// brick at [1][0] with no bonus, everything else empty.
fn one_level_fixture() -> String {
    let mut bricks = vec!["..............".to_string(); GRID_HEIGHT];
    bricks[0].replace_range(0..2, "aE");
    let mut bonus = vec!["..............".to_string(); GRID_HEIGHT];
    bonus[0].replace_range(0..1, "+");
    format!(
        "Level:\nSomeone\nLevel One\nBricks:\n{}\nBonus:\n{}\n",
        bricks.join("\n"),
        bonus.join("\n")
    )
}

#[test]
fn brick_table_matches_documented_categories() {
    assert_eq!(brick_cell('.'), BrickCell::Empty);
    assert_eq!(brick_cell(' '), BrickCell::Empty);
    for ch in ['E', '#', '@'] {
        assert_eq!(brick_cell(ch), BrickCell::Kind(BrickKind::Indestructible));
    }
    for ch in ['b', 'c', 'v', 'y', 'z'] {
        assert_eq!(brick_cell(ch), BrickCell::Kind(BrickKind::Armored));
    }
    for ch in [
        'a', 'd', 'e', 'f', 'g', 'h', 'i', 'j', 'k', 'x', '*', '!', 'F', 'G', 'H', 'I', 'J',
        'K',
    ] {
        assert_eq!(brick_cell(ch), BrickCell::Kind(BrickKind::Normal));
    }
    assert_eq!(brick_cell('?'), BrickCell::Unsupported);
}

#[test]
fn uppercase_grown_brick_aliases_match_their_lowercase_base() {
    for (upper, lower) in [
        ('F', 'f'),
        ('G', 'g'),
        ('H', 'h'),
        ('I', 'i'),
        ('J', 'j'),
        ('K', 'k'),
    ] {
        assert_eq!(brick_cell(upper), brick_cell(lower));
    }
}

#[test]
fn bonus_table_matches_documented_categories() {
    assert_eq!(bonus_cell('.'), BonusCell::Empty);
    assert_eq!(bonus_cell('+'), BonusCell::Mapped(PowerUpKind::Widen));
    assert_eq!(bonus_cell('<'), BonusCell::Mapped(PowerUpKind::Slow));
    assert_eq!(bonus_cell('b'), BonusCell::Mapped(PowerUpKind::Multiball));
    for ch in [
        '0', '1', '2', '3', '4', '5', 'g', '-', 'l', 's', 'm', 'w', 'f', 'p', '?', '>', 'j',
        'd', 'c', '~', '!', '&', '*', '}', '{', 'W',
    ] {
        assert_eq!(bonus_cell(ch), BonusCell::Recognized, "char {ch:?}");
    }
    assert_eq!(bonus_cell('_'), BonusCell::Unsupported);
}

#[test]
fn brick_and_bonus_grids_disagree_on_overlapping_chars_by_design() {
    // '+' grows the paddle in Bonus but is entirely unsupported in
    // Bricks; 'b' is a 2-hit armored brick but an extra-ball bonus.
    assert_eq!(brick_cell('+'), BrickCell::Unsupported);
    assert_eq!(bonus_cell('+'), BonusCell::Mapped(PowerUpKind::Widen));
    assert_eq!(brick_cell('b'), BrickCell::Kind(BrickKind::Armored));
    assert_eq!(bonus_cell('b'), BonusCell::Mapped(PowerUpKind::Multiball));
}

#[test]
fn parses_one_level_with_matching_brick_and_bonus_cells() {
    let set = parse_levelset("test.lbl", &one_level_fixture());
    assert!(set.warnings.is_empty());
    assert_eq!(set.levels.len(), 1);
    let level = &set.levels[0];
    assert_eq!(level.author, "Someone");
    assert_eq!(level.name, "Level One");
    assert_eq!(level.bricks.len(), 2);
    assert_eq!(
        level.bricks[0],
        ExternalBrickSpawn {
            x: 0,
            y: 0,
            kind: BrickKind::Normal,
            powerup: Some(PowerUpKind::Widen),
        }
    );
    assert_eq!(
        level.bricks[1],
        ExternalBrickSpawn {
            x: BRICK_WIDTH,
            y: 0,
            kind: BrickKind::Indestructible,
            powerup: None,
        }
    );
}

#[test]
fn version_header_is_consumed_and_does_not_break_parsing() {
    let content = format!("Version: 1.45\n{}", one_level_fixture());
    let set = parse_levelset("test.lbl", &content);
    assert_eq!(set.levels.len(), 1);
}

#[test]
fn multiple_level_blocks_all_parse() {
    let content = one_level_fixture() + &one_level_fixture();
    let set = parse_levelset("test.lbl", &content);
    assert_eq!(set.levels.len(), 2);
}

#[test]
fn unsupported_brick_char_warns_with_file_and_line_and_maps_to_empty() {
    let mut content = one_level_fixture();
    // Row 0 is line 5 (Level:/author/name/Bricks: are lines 1-4).
    content = content.replacen("aE", "a?", 1);
    let set = parse_levelset("bad.lbl", &content);
    assert_eq!(set.levels[0].bricks.len(), 1); // '?' -> empty, dropped.
    assert_eq!(set.warnings.len(), 1);
    assert!(set.warnings[0].contains("bad.lbl:5"));
    assert!(set.warnings[0].contains('?'));
}

#[test]
fn recognized_but_unmapped_bonus_char_warns_and_drops_to_no_powerup() {
    let mut content = one_level_fixture();
    content = content.replacen('+', "0", 1); // '0' = +200 score, unmapped.
    let set = parse_levelset("bad.lbl", &content);
    assert_eq!(set.levels[0].bricks[0].powerup, None);
    assert_eq!(set.warnings.len(), 1);
    assert!(set.warnings[0].contains("no matching power-up"));
}

#[test]
fn unsupported_bonus_char_also_warns() {
    let mut content = one_level_fixture();
    content = content.replacen('+', "_", 1);
    let set = parse_levelset("bad.lbl", &content);
    assert_eq!(set.levels[0].bricks[0].powerup, None);
    assert_eq!(set.warnings.len(), 1);
    assert!(set.warnings[0].contains("unsupported"));
}

#[test]
fn truncated_file_stops_cleanly_without_panicking() {
    let set = parse_levelset("short.lbl", "Level:\nAuthor\nName\nBricks:\n");
    assert!(set.levels.is_empty());
    assert!(set.warnings.is_empty());
}

#[test]
fn empty_file_yields_no_levels_and_no_warnings() {
    let set = parse_levelset("empty.lbl", "");
    assert!(set.levels.is_empty());
    assert!(set.warnings.is_empty());
}

fn level_set_of(count: usize) -> LevelSet {
    LevelSet {
        levels: (0..count)
            .map(|i| ExternalLevel {
                author: "test".to_string(),
                name: format!("Level {i}"),
                bricks: Vec::new(),
            })
            .collect(),
        warnings: Vec::new(),
    }
}

#[test]
fn random10_picks_10_distinct_levels_from_a_larger_corpus() {
    let set = level_set_of(37);
    let mut rng = StdRng::seed_from_u64(7);

    let picked = random10(&set, &mut rng);

    assert_eq!(picked.len(), 10);
    let distinct_names: HashSet<_> =
        picked.iter().map(|level| &level.name).collect();
    assert_eq!(
        distinct_names.len(),
        10,
        "all 10 picks must be distinct levels"
    );
    for level in &picked {
        assert!(
            set.levels.contains(level),
            "every pick must come from the loaded corpus"
        );
    }
}

#[test]
fn random10_on_a_corpus_of_10_or_fewer_returns_all_of_them() {
    let set = level_set_of(3);
    let mut rng = StdRng::seed_from_u64(7);

    let picked = random10(&set, &mut rng);

    assert_eq!(
        picked.len(),
        3,
        "nothing more to pick from a 3-level corpus"
    );
    let distinct_names: HashSet<_> =
        picked.iter().map(|level| &level.name).collect();
    assert_eq!(distinct_names.len(), 3);
}

/// A progress record with a set marked as completed.
fn marked(progress: &str, set_id: &str) -> String {
    let mut record = progress.to_string();
    if let Some(line) = mark_set_completed(progress, set_id) {
        record.push_str(&line);
    }
    record
}

#[test]
fn set_completion_round_trips_through_the_progress_file() {
    let record = String::new();
    assert!(!is_set_completed(&record, "levels/foo.lbl"));

    let record = marked(&record, "levels/foo.lbl");
    assert!(is_set_completed(&record, "levels/foo.lbl"));
    assert!(
        !is_set_completed(&record, "levels/other.lbl"),
        "completion is tracked per set id, not a single global flag"
    );

    let contents = marked(&record, "levels/foo.lbl"); // idempotent
    assert_eq!(
        contents.lines().count(),
        1,
        "marking the same set complete twice must not duplicate the record"
    );
}

/// An empty row of a grid.
const EMPTY: &str = "..............";

/// A level block with the given first rows of its two grids.
fn block(name: &str, bricks: &[&str], bonus: &[&str]) -> String {
    let grid = |rows: &[&str]| {
        let mut lines = String::new();
        for row in 0..GRID_HEIGHT {
            lines.push_str(rows.get(row).unwrap_or(&EMPTY));
            lines.push('\n');
        }
        lines
    };
    format!(
        "Level:\nHomemade\n{name}\nBricks:\n{}Bonus:\n{}",
        grid(bricks),
        grid(bonus)
    )
}

/// Three levels: a small cluster of normal bricks; every brick and bonus
/// character and one unknown of each; and a few bricks in the corners.
fn homemade_fixture() -> String {
    let cluster = ["", "", "", "", "....aaaaaa...."];
    let cluster: Vec<&str> = cluster
        .iter()
        .map(|row| if row.is_empty() { EMPTY } else { row })
        .collect();
    String::from("Version: 1.00\n")
        + &block("Clearable Cluster", &cluster, &[])
        + &block(
            "Full Table Sweep",
            &["E#@bcvyzadefgh", "ijkx*!FGHIJKQ."],
            &["+<b012345g-lsm", "wfp?>jdc~!&*}{", "W_............"],
        )
        + &block("Corner Sentinels", &["Eb..........bE"], &[])
}

#[test]
fn homemade_fixture_has_exactly_three_levels() {
    let set = parse_levelset("tests/fixtures/homemade.lbl", &homemade_fixture());
    assert_eq!(set.levels.len(), 3);
    assert_eq!(set.levels[0].name, "Clearable Cluster");
    assert_eq!(set.levels[1].name, "Full Table Sweep");
    assert_eq!(set.levels[2].name, "Corner Sentinels");
}

#[test]
fn homemade_fixture_exercises_every_supported_brick_and_bonus_char() {
    let set = parse_levelset("tests/fixtures/homemade.lbl", &homemade_fixture());
    let sweep = &set.levels[1];

    let at = |col: usize, row: usize| {
        sweep
            .bricks
            .iter()
            .find(|b| b.x == col as i64 * BRICK_WIDTH && b.y == row as i64 * BRICK_HEIGHT)
            .unwrap_or_else(|| panic!("no spawn at col {col} row {row}"))
    };

    // The three "Mapped" bonus chars sit over Bricks row 0's three
    // Indestructible chars -- proves both that the mapping is correct
    // and that Bricks/Bonus are read from two independent tables (`b`
    // means Armored in one and Multiball in the other).
    assert_eq!(at(0, 0).kind, BrickKind::Indestructible); // 'E'
    assert_eq!(at(0, 0).powerup, Some(PowerUpKind::Widen)); // '+'
    assert_eq!(at(1, 0).kind, BrickKind::Indestructible); // '#'
    assert_eq!(at(1, 0).powerup, Some(PowerUpKind::Slow)); // '<'
    assert_eq!(at(2, 0).kind, BrickKind::Indestructible); // '@'
    assert_eq!(at(2, 0).powerup, Some(PowerUpKind::Multiball)); // 'b' (Bonus)
    assert_eq!(at(3, 0).kind, BrickKind::Armored); // 'b' (Bricks)
    assert_eq!(at(3, 0).powerup, None, "'0' is Recognized, not Mapped");
    assert_eq!(at(6, 1).kind, BrickKind::Normal, "'F' is an alias of 'f'");

    // Exactly the 26 documented non-empty brick chars produced a spawn
    // -- the 27th non-'.' cell (`Q`, row 1 col 12) is Unsupported and
    // must map to no spawn at all.
    assert_eq!(sweep.bricks.len(), 26);
    assert!(sweep
        .bricks
        .iter()
        .all(|b| !(b.x == 12 * BRICK_WIDTH && b.y == BRICK_HEIGHT)));
}

#[test]
fn homemade_fixture_warns_on_every_unsupported_or_unmapped_char_and_nothing_else() {
    let set = parse_levelset("tests/fixtures/homemade.lbl", &homemade_fixture());

    // Levels 1 and 3 use only supported chars and never populate
    // Bonus, so every warning in the whole fixture comes from level 2.
    let count = |needle: &str| set.warnings.iter().filter(|w| w.contains(needle)).count();

    assert_eq!(count("brick char 'Q'"), 1, "the one unsupported brick char");
    assert_eq!(count("bonus char '_'"), 1, "the one unsupported bonus char");
    // The 26 documented-but-unmapped Bonus chars ('0'..'W') each warn
    // once with this reason.
    assert_eq!(count("no matching power-up"), 26);
    assert_eq!(set.warnings.len(), 28, "nothing else should ever warn");
}


#[test]
fn a_grid_keeps_its_first_fourteen_columns() {
    let content = block("Wide", &["aaaaaaaaaaaaaaQQ"], &[]);
    let set = parse_levelset("wide.lbl", &content);
    assert_eq!(set.levels.len(), 1);
    assert_eq!(set.levels[0].bricks.len(), 14);
    assert!(set.warnings.is_empty());
}

#[test]
fn a_short_row_is_filled_up_with_empty_cells() {
    let content = block("Short", &["aaa", "", "\u{e9}a"], &["+"]);
    let set = parse_levelset("short.lbl", &content);
    assert_eq!(set.levels.len(), 1);
    assert_eq!(set.levels[0].bricks.len(), 4);
    assert_eq!(set.levels[0].bricks[0].powerup, Some(PowerUpKind::Widen));
    assert_eq!(set.levels[0].bricks[3].x, BRICK_WIDTH);
    assert_eq!(set.levels[0].bricks[3].y, 2 * BRICK_HEIGHT);
    assert_eq!(set.warnings.len(), 1);
}

#[test]
fn a_file_that_ends_inside_a_grid_keeps_the_levels_before() {
    let whole = block("Good", &["a............."], &[]);
    let cut = block("Cut", &["Q............."], &[]);
    let cut: String = cut.lines().take(30).map(|line| format!("{line}\n")).collect();
    let set = parse_levelset("cut.lbl", &(whole + &cut));
    assert_eq!(set.levels.len(), 1);
    assert_eq!(set.levels[0].name, "Good");
    assert_eq!(set.warnings.len(), 1, "the lines that were read still warn");
}

#[test]
fn carriage_returns_end_lines_too() {
    let unix = block("Level", &["aE............"], &["+............."]);
    let dos = unix.replace('\n', "\r\n");
    assert_eq!(
        parse_levelset("a.lbl", &dos),
        parse_levelset("a.lbl", &unix)
    );
}

#[test]
fn labels_may_have_a_tail() {
    let content = block("Level", &["a............."], &[])
        .replace("Level:\n", "Level: one\n")
        .replace("Bricks:\n", "Bricks: here\n")
        .replace("Bonus:\n", "Bonus:none\n");
    assert_eq!(parse_levelset("a.lbl", &content).levels.len(), 1);
}

#[test]
fn a_version_in_a_later_line_ends_the_file() {
    let level = block("Level", &["a............."], &[]);
    let set = parse_levelset("a.lbl", &format!("{level}Version: 1.00\n{level}"));
    assert_eq!(set.levels.len(), 1);
}

#[test]
fn warnings_name_the_file_the_line_and_the_character() {
    let content = block("Level", &[EMPTY, "..Q..........."], &[".....\u{e9}........"]);
    let set = parse_levelset("dir/w.lbl", &content);
    assert_eq!(
        set.warnings,
        vec![
            "dir/w.lbl:6: brick char 'Q' at col 2 is unsupported -> mapped to empty",
            "dir/w.lbl:24: bonus char '\u{e9}' at col 5 is unsupported -> no drop",
        ]
    );
}

#[test]
fn a_quote_is_escaped_in_a_warning() {
    let set = parse_levelset("q.lbl", &block("Level", &["'............."], &[]));
    assert_eq!(
        set.warnings,
        vec!["q.lbl:5: brick char '\\'' at col 0 is unsupported -> mapped to empty"]
    );
}

#[test]
fn two_files_in_a_row_hold_the_levels_of_both() {
    let first = block("First", &["a............."], &[]);
    let second = block("Second", &["bE............"], &[]);
    let both = parse_levelset("a.lbl", &(first.clone() + &second));
    let mut levels = parse_levelset("a.lbl", &first).levels;
    levels.extend(parse_levelset("a.lbl", &second).levels);
    assert_eq!(both.levels, levels);
}

#[test]
fn a_header_adds_no_warning_whichever_way_its_line_ends() {
    let content = block("Level", &["Qa............"], &["W_............"]);
    let plain = parse_levelset("a.lbl", &content);
    assert_eq!(plain.warnings.len(), 3);
    for header in ["Version: 1.45\n", "Version: 1.45\r\n", "Version:\r\n"] {
        let set = parse_levelset("a.lbl", &format!("{header}{content}"));
        assert_eq!(set.levels, plain.levels);
        assert_eq!(set.warnings.len(), 3);
        assert_eq!(
            set.warnings[0],
            "a.lbl:6: brick char 'Q' at col 0 is unsupported -> mapped to empty"
        );
    }
}

#[test]
fn two_files_in_a_row_leave_the_warnings_of_both() {
    let first = String::from("Version: 1.00\n") + &block("First", &["Qa............"], &[]);
    let second = block("Second", &["bQ............"], &["W............."]);
    let both = parse_levelset("a.lbl", &(first.clone() + &second));
    let alone = parse_levelset("a.lbl", &first);
    assert_eq!(both.warnings[..1], alone.warnings);
    assert_eq!(both.warnings.len(), 1 + 2);
    assert_eq!(parse_levelset("a.lbl", &second).warnings.len(), 2);
}

#[test]
fn picked_levels_come_in_the_order_of_the_picks() {
    let set = level_set_of(5);
    let picked = pick_levels(&set, &vec![3, 0, 3]);
    let names: Vec<&str> = picked.iter().map(|level| level.name.as_str()).collect();
    assert_eq!(names, vec!["Level 3", "Level 0", "Level 3"]);
}

#[test]
fn random10_of_an_empty_set_is_empty() {
    let mut rng = StdRng::seed_from_u64(7);
    assert!(random10(&level_set_of(0), &mut rng).is_empty());
    assert_eq!(random10(&level_set_of(10), &mut rng).len(), 10);
    assert_eq!(random10(&level_set_of(11), &mut rng).len(), 10);
}

#[test]
fn random10_depends_on_the_generator() {
    let set = level_set_of(1000);
    let pick = |seed: u64| random10(&set, &mut StdRng::seed_from_u64(seed));
    assert_eq!(pick(1), pick(1));
    assert_ne!(pick(1), pick(2));
}

#[test]
fn recording_one_set_keeps_the_others() {
    let record = marked(&marked("", "a"), "b");
    assert_eq!(record, "a\nb\n");
    assert!(is_set_completed(&record, "a"));
    assert!(is_set_completed(&record, "b"));
    assert!(!is_set_completed(&record, "ab"));
    assert_eq!(mark_set_completed(&record, "a"), None);
    assert_eq!(mark_set_completed(&record, "c"), Some("c\n".to_string()));
}

#[test]
fn levelset_files_end_in_lbl() {
    for name in ["a.lbl", "A.LBL", "x.y.Lbl", "..lbl"] {
        assert!(is_levelset_name(name), "{name}");
    }
    for name in ["lbl", ".lbl", "a.lblx", "albl", "a.txt", "", "a.lb"] {
        assert!(!is_levelset_name(name), "{name}");
    }
}

#[test]
fn a_warning_line_puts_its_parts_together() {
    assert_eq!(
        warning_line("a.lbl", 12, GridTable::Bonus, "'?'", 3, "is unsupported -> no drop"),
        "a.lbl:12: bonus char '?' at col 3 is unsupported -> no drop"
    );
    assert_eq!(
        warning_line("", 0, GridTable::Brick, "", 0, ""),
        ":0: brick char  at col 0 "
    );
}
