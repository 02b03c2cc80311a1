use arkanoid::levels::{
    level_rows, parse_level, BrickKind, BrickSpawn, BRICK_HEIGHT, BRICK_WIDTH, LEVEL_1, LEVEL_2,
    LEVEL_3, LEVEL_COUNT,
};

#[test]
fn level_1_row_is_all_normal_bricks_at_expected_positions() {
    let spawns = parse_level(&[LEVEL_1[0]]);
    assert_eq!(spawns.len(), 14);
    assert!(spawns.iter().all(|b| b.kind == BrickKind::Normal));
    assert_eq!(
        spawns[0],
        BrickSpawn {
            x: 0,
            y: 0,
            kind: BrickKind::Normal
        }
    );
    assert_eq!(
        spawns[13],
        BrickSpawn {
            x: 13 * BRICK_WIDTH,
            y: 0,
            kind: BrickKind::Normal
        }
    );
}

#[test]
fn level_2_top_row_is_all_armored() {
    let spawns = parse_level(&[LEVEL_2[0]]);
    assert_eq!(spawns.len(), 14);
    assert!(spawns.iter().all(|b| b.kind == BrickKind::Armored));
}

#[test]
fn level_3_top_row_is_all_indestructible() {
    let spawns = parse_level(&[LEVEL_3[0]]);
    assert_eq!(spawns.len(), 14);
    assert!(spawns.iter().all(|b| b.kind == BrickKind::Indestructible));
}

#[test]
fn level_3_corridor_row_mixes_kinds_and_skips_empty_cells() {
    // "X1..........1X": walls and normal bricks at the ends, dots skipped.
    let spawns = parse_level(&[LEVEL_3[3]]);
    assert_eq!(spawns.len(), 4);
    assert_eq!(
        spawns[0],
        BrickSpawn {
            x: 0,
            y: 0,
            kind: BrickKind::Indestructible
        }
    );
    assert_eq!(
        spawns[1],
        BrickSpawn {
            x: BRICK_WIDTH,
            y: 0,
            kind: BrickKind::Normal
        }
    );
    assert_eq!(
        spawns[2],
        BrickSpawn {
            x: 12 * BRICK_WIDTH,
            y: 0,
            kind: BrickKind::Normal
        }
    );
    assert_eq!(
        spawns[3],
        BrickSpawn {
            x: 13 * BRICK_WIDTH,
            y: 0,
            kind: BrickKind::Indestructible
        }
    );
}

#[test]
fn all_built_in_levels_have_rectangular_rows() {
    for index in 0..LEVEL_COUNT {
        let level = level_rows(index);
        let width = level[0].chars().count();
        assert!(level.iter().all(|row| row.chars().count() == width));
        assert!(width <= 14);
        assert!(level.len() <= 8);
    }
}

#[test]
fn rows_stack_downwards() {
    let spawns = parse_level(&["1.", ".2", "X?"]);
    assert_eq!(
        spawns,
        vec![
            BrickSpawn {
                x: 0,
                y: 0,
                kind: BrickKind::Normal
            },
            BrickSpawn {
                x: BRICK_WIDTH,
                y: BRICK_HEIGHT,
                kind: BrickKind::Armored
            },
            BrickSpawn {
                x: 0,
                y: 2 * BRICK_HEIGHT,
                kind: BrickKind::Indestructible
            },
        ]
    );
}

#[test]
fn every_occupied_cell_of_a_built_in_level_spawns_once() {
    for index in 0..LEVEL_COUNT {
        let rows = level_rows(index);
        let spawns = parse_level(&rows);
        let mut occupied = 0;
        for (row, line) in rows.iter().enumerate() {
            for (col, ch) in line.chars().enumerate() {
                let (x, y) = (col as i64 * BRICK_WIDTH, row as i64 * BRICK_HEIGHT);
                let found: Vec<&BrickSpawn> =
                    spawns.iter().filter(|s| s.x == x && s.y == y).collect();
                let kinds: Vec<BrickKind> = found.iter().map(|s| s.kind).collect();
                match ch {
                    '1' => assert_eq!(kinds, vec![BrickKind::Normal]),
                    '2' => assert_eq!(kinds, vec![BrickKind::Armored]),
                    'X' => assert_eq!(kinds, vec![BrickKind::Indestructible]),
                    _ => assert!(kinds.is_empty()),
                }
                occupied += kinds.len();
            }
        }
        assert_eq!(occupied, spawns.len());
    }
}

#[test]
fn an_empty_grid_has_no_bricks() {
    assert!(parse_level(&[]).is_empty());
    assert!(parse_level(&["", "...."]).is_empty());
}

#[test]
fn spawns_come_in_reading_order() {
    let places: Vec<(i64, i64)> = parse_level(&["1.2", "...", ".X1"])
        .iter()
        .map(|spawn| (spawn.x, spawn.y))
        .collect();
    assert_eq!(places, vec![(0, 0), (104, 0), (52, 44), (104, 44)]);
}
