use arkanoid::bench::{destroy_events, stress_game, worst_case_bricks, FrameMeter};
use arkanoid::events::{GameEvent, PowerUpKind};
use arkanoid::game::{Game, GameState};
use arkanoid::levels::BrickKind;

#[test]
fn the_full_board_has_fourteen_columns_and_eight_rows() {
    let bricks = worst_case_bricks();
    assert_eq!(bricks.len(), 112);
    assert_eq!((bricks[0].x, bricks[0].y), (62, 71));
    assert_eq!((bricks[13].x, bricks[13].y), (738, 71));
    assert_eq!((bricks[14].x, bricks[14].y), (62, 93));
    assert_eq!((bricks[111].x, bricks[111].y), (738, 225));
    for brick in &bricks {
        assert_eq!((brick.width, brick.height), (52, 22));
        assert_eq!(brick.kind, BrickKind::Normal);
        assert_eq!((brick.hits_remaining, brick.score), (1, 10));
    }
}

#[test]
fn breaking_bricks_are_spread_and_every_third_is_armored() {
    let events = destroy_events(20);
    assert_eq!(events.len(), 20);
    assert_eq!(
        events[0],
        GameEvent::BrickDestroyedAt {
            x: 40,
            y: 80,
            width: 52,
            height: 22,
            kind: BrickKind::Armored
        }
    );
    assert_eq!(
        events[14],
        GameEvent::BrickDestroyedAt {
            x: 62,
            y: 114,
            width: 52,
            height: 22,
            kind: BrickKind::Normal
        }
    );
    assert!(destroy_events(0).is_empty());
}

#[test]
fn the_stress_game_is_in_full_swing() {
    let game: Game<f32> = stress_game(|n| n as f32);
    assert_eq!(game.state, GameState::Playing);
    assert_eq!(game.bricks, worst_case_bricks());
    assert!(!game.ball.attached);
    assert_eq!((game.ball.vx, game.ball.vy), (220.0, -300.0));
    let balls: Vec<(f32, f32, f32, f32)> = game
        .extra_balls
        .iter()
        .map(|ball| (ball.x, ball.y, ball.vx, ball.vy))
        .collect();
    assert_eq!(
        balls,
        vec![(300.0, 250.0, -180.0, 260.0), (500.0, 320.0, 200.0, -240.0)]
    );
    let capsules: Vec<(f32, f32, PowerUpKind)> = game
        .powerups
        .iter()
        .map(|powerup| (powerup.x, powerup.y, powerup.kind))
        .collect();
    assert_eq!(
        capsules,
        vec![
            (200.0, 400.0, PowerUpKind::Widen),
            (420.0, 350.0, PowerUpKind::Slow),
            (600.0, 300.0, PowerUpKind::Multiball),
        ]
    );
}

#[test]
fn the_meter_warms_up_measures_and_stops() {
    let mut meter = FrameMeter { frame: 0 };
    let mut measured = 0;
    let mut progress = 0;
    loop {
        let report = meter.count();
        measured += usize::from(report.measured);
        progress += usize::from(report.progress);
        if report.finished {
            break;
        }
    }
    assert_eq!(meter.frame, 660);
    assert_eq!(measured, 600);
    assert_eq!(progress, 6);
}
