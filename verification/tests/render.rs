use std::collections::VecDeque;

use arkanoid::assets::SpriteId;
use arkanoid::events::PowerUpKind;
use arkanoid::game::{Ball, Brick, Game, GameState, Paddle, PowerUp};
use arkanoid::levels::BrickKind;
use arkanoid::render::{
    brick_sprite, bricks_just_destroyed, bricks_just_hit, frame_lines, frame_quads, overlay_text,
    powerup_color, push_trail, Align, Alpha, FrameTracker, Look, Quad, RenderState, Shape, MAX_QUADS,
    TRAIL_LEN,
};

fn new_game() -> Game<f32> {
    Game::new(|n| n as f32)
}

/// The state `alpha` of the way from one to another.
fn blend(prev: &RenderState<f32>, curr: &RenderState<f32>, alpha: f32) -> RenderState<f32> {
    let alpha = Alpha {
        value: alpha,
        zero: 0.0,
        one: 1.0,
    };
    RenderState::lerp(prev, curr, &alpha, |a, b| a < b, |a, b, share| a + (b - a) * share)
}

fn brick(kind: BrickKind, hits_remaining: u8) -> Brick {
    brick_at(0, 0, kind, hits_remaining)
}

fn brick_at(x: i64, y: i64, kind: BrickKind, hits_remaining: u8) -> Brick {
    Brick {
        x,
        y,
        width: 52,
        height: 22,
        kind,
        hits_remaining,
        score: 10,
    }
}

#[test]
fn armored_brick_sprite_changes_after_its_first_hit() {
    let fresh = brick_sprite(&brick(BrickKind::Armored, 2));
    let hit = brick_sprite(&brick(BrickKind::Armored, 1));
    assert_ne!(fresh, hit, "the first hit must visibly change its sprite");
    assert_eq!(fresh, SpriteId::BrickArmoredIntact);
    assert_eq!(hit, SpriteId::BrickArmoredHit);
}

#[test]
fn overlay_text_is_none_only_while_playing() {
    let mut game = new_game();
    game.state = GameState::Playing;
    assert!(
        overlay_text(&game).is_none(),
        "no overlay should draw during Playing"
    );

    for state in [
        GameState::Menu,
        GameState::Paused,
        GameState::GameOver,
        GameState::Victory,
    ] {
        game.state = state;
        assert!(
            overlay_text(&game).is_some(),
            "{state:?} must show an overlay"
        );
    }
}

#[test]
fn game_over_and_victory_overlays_show_the_final_score() {
    let mut game = new_game();
    game.score = 1234;

    game.state = GameState::GameOver;
    let (_, detail) = overlay_text(&game).expect("GameOver must have an overlay");
    assert!(
        detail.contains("1234"),
        "game over overlay must show the final score"
    );

    game.state = GameState::Victory;
    let (_, detail) = overlay_text(&game).expect("Victory must have an overlay");
    assert!(
        detail.contains("1234"),
        "victory overlay must show the final score"
    );
}

#[test]
fn menu_overlay_has_a_title_and_mentions_the_start_key() {
    let mut game = new_game(); // a new game is in the menu
    game.state = GameState::Menu;
    let (title, detail) = overlay_text(&game).expect("Menu must have an overlay");
    assert_eq!(title, "ARKANOID");
    assert!(
        detail.contains("SPACE"),
        "must tell the player how to start"
    );
}

#[test]
fn each_brick_kind_gets_its_own_distinct_sprite() {
    let normal = brick_sprite(&brick(BrickKind::Normal, 1));
    let armored = brick_sprite(&brick(BrickKind::Armored, 2));
    let indestructible = brick_sprite(&brick(BrickKind::Indestructible, 0));
    assert_ne!(normal, armored);
    assert_ne!(normal, indestructible);
    assert_ne!(armored, indestructible);
}

#[test]
fn render_each_powerup_kind_gets_its_own_distinct_color() {
    let widen = powerup_color(PowerUpKind::Widen);
    let slow = powerup_color(PowerUpKind::Slow);
    let multiball = powerup_color(PowerUpKind::Multiball);
    assert_ne!(widen, slow);
    assert_ne!(widen, multiball);
    assert_ne!(slow, multiball);
}

#[test]
fn bricks_just_hit_flags_a_surviving_armored_brick_after_its_first_hit() {
    let prev = vec![brick_at(100, 50, BrickKind::Armored, 2)];
    let curr = vec![brick_at(100, 50, BrickKind::Armored, 1)];

    let hit = bricks_just_hit(&prev, &curr);

    assert_eq!(hit, vec![(100, 50)]);
}

#[test]
fn bricks_just_hit_ignores_bricks_whose_hit_count_is_unchanged() {
    let prev = vec![brick_at(100, 50, BrickKind::Armored, 2)];
    let curr = vec![brick_at(100, 50, BrickKind::Armored, 2)];

    assert!(bricks_just_hit(&prev, &curr).is_empty());
}

#[test]
fn bricks_just_destroyed_flags_a_removed_destructible_brick() {
    let prev = vec![
        brick_at(100, 50, BrickKind::Normal, 1),
        brick_at(200, 50, BrickKind::Normal, 1),
    ];
    // Only the first brick survives into this frame.
    let curr = vec![brick_at(200, 50, BrickKind::Normal, 1)];

    let ghosts = bricks_just_destroyed(&prev, &curr);

    assert_eq!(ghosts.len(), 1);
    assert_eq!(ghosts[0].x, 100);
}

#[test]
fn bricks_just_destroyed_ignores_an_indestructible_brick_dropped_by_a_level_reload() {
    // Simulates `advance_level`'s wholesale grid reload: an
    // indestructible brick vanishes between frames without ever having
    // been destroyed by combat.
    let prev = vec![brick_at(100, 50, BrickKind::Indestructible, 0)];
    let curr: Vec<Brick> = Vec::new();

    assert!(
        bricks_just_destroyed(&prev, &curr).is_empty(),
        "an indestructible brick disappearing must not register as destroyed"
    );
}

#[test]
fn push_trail_clears_while_attached_and_caps_length_once_launched() {
    let mut trail = VecDeque::new();
    let mut ball = Ball {
        x: 0.0,
        y: 0.0,
        vx: 0.0,
        vy: 0.0,
        radius: 6.0,
        attached: true,
    };

    push_trail(&mut trail, &ball);
    assert!(trail.is_empty(), "an attached ball leaves no trail");

    ball.attached = false;
    for i in 0..(TRAIL_LEN as i32 + 3) {
        ball.x = i as f32;
        push_trail(&mut trail, &ball);
    }
    assert_eq!(trail.len(), TRAIL_LEN, "trail must be capped at TRAIL_LEN");
    assert_eq!(
        trail.back(),
        Some(&(ball.x, ball.y)),
        "the most recent position must be the newest entry"
    );

    ball.attached = true;
    push_trail(&mut trail, &ball);
    assert!(trail.is_empty(), "re-attaching (respawn) clears the trail");
}

fn state(paddle_x: f32, ball_x: f32, ball_y: f32, attached: bool) -> RenderState<f32> {
    RenderState {
        paddle: Paddle {
            x: paddle_x,
            y: 550.0,
            width: 100.0,
            height: 16.0,
        },
        ball: Ball {
            x: ball_x,
            y: ball_y,
            vx: 0.0,
            vy: 0.0,
            radius: 6.0,
            attached,
        },
    }
}

#[test]
fn lerp_at_zero_and_one_returns_the_endpoints_unchanged() {
    let prev = state(100.0, 100.0, 200.0, false);
    let curr = state(140.0, 150.0, 180.0, false);

    assert_eq!(blend(&prev, &curr, 0.0), prev);
    assert_eq!(blend(&prev, &curr, 1.0), curr);
}

#[test]
fn lerp_at_half_is_the_midpoint_of_both_positions() {
    let prev = state(100.0, 100.0, 200.0, false);
    let curr = state(140.0, 150.0, 180.0, false);

    let mid = blend(&prev, &curr, 0.5);

    assert!((mid.paddle.x - 120.0).abs() < 1e-4);
    assert!((mid.ball.x - 125.0).abs() < 1e-4);
    assert!((mid.ball.y - 190.0).abs() < 1e-4);
}

#[test]
fn lerp_clamps_an_out_of_range_alpha() {
    let prev = state(100.0, 100.0, 200.0, false);
    let curr = state(140.0, 150.0, 180.0, false);

    assert_eq!(blend(&prev, &curr, -1.0), prev);
    assert_eq!(blend(&prev, &curr, 2.0), curr);
}

#[test]
fn lerp_snaps_the_ball_to_curr_on_respawn_instead_of_streaking_in() {
    // prev: ball fell off the bottom of the playfield, still detached.
    let prev = state(400.0, 400.0, 650.0, false);
    // curr: it is back on the paddle.
    let curr = state(400.0, 400.0, 100.0, true);

    let drawn = blend(&prev, &curr, 0.5);

    assert_eq!(drawn.ball, curr.ball, "no blending through the gap");
    // The paddle (unaffected by the respawn) still interpolates
    // normally -- the snap is ball-specific, not a whole-frame freeze.
    assert!((drawn.paddle.x - 400.0).abs() < 1e-4);
}

#[test]
fn interpolate_at_zero_and_one_returns_the_endpoints_unchanged() {
    let prev = state(100.0, 100.0, 200.0, false);
    let curr = state(140.0, 150.0, 180.0, false);

    assert_eq!(blend(&prev, &curr, 0.0), prev);
    assert_eq!(blend(&prev, &curr, 1.0), curr);
}

#[test]
fn interpolate_at_half_is_the_midpoint() {
    let prev = state(100.0, 100.0, 200.0, false);
    let curr = state(140.0, 150.0, 180.0, false);

    let mid = blend(&prev, &curr, 0.5);

    assert!((mid.paddle.x - 120.0).abs() < 1e-4);
    assert!((mid.ball.x - 125.0).abs() < 1e-4);
    assert!((mid.ball.y - 190.0).abs() < 1e-4);
}

#[test]
fn interpolate_clamps_an_out_of_range_alpha() {
    let prev = state(100.0, 100.0, 200.0, false);
    let curr = state(140.0, 150.0, 180.0, false);

    assert_eq!(blend(&prev, &curr, -1.0), prev);
    assert_eq!(blend(&prev, &curr, 2.0), curr);
}

#[test]
fn interpolate_snaps_the_ball_to_curr_on_respawn_instead_of_streaking_in() {
    let prev = state(400.0, 400.0, 650.0, false);
    let curr = state(400.0, 400.0, 100.0, true);

    let drawn = blend(&prev, &curr, 0.5);

    assert_eq!(drawn.ball, curr.ball, "no blending through the gap");
    assert!((drawn.paddle.x - 400.0).abs() < 1e-4);
}

#[test]
fn a_render_state_is_the_paddle_and_the_ball() {
    let game = new_game();
    let state = RenderState::from(&game);
    assert_eq!(state.paddle, game.paddle);
    assert_eq!(state.ball, game.ball);
}

#[test]
fn overlays_have_their_exact_texts() {
    let mut game = new_game();
    let text = |game: &Game<f32>| overlay_text(game).map(|(title, detail)| (title, detail));
    assert_eq!(
        text(&game),
        Some((
            "ARKANOID",
            "SPACE: Start   ARROWS / A D: Move   ESC or P: Pause".to_string()
        ))
    );
    game.state = GameState::Paused;
    assert_eq!(text(&game), Some(("PAUSED", "ESC or P: Resume".to_string())));
    game.score = 0;
    game.state = GameState::GameOver;
    assert_eq!(
        text(&game),
        Some(("GAME OVER", "Final Score: 0".to_string()))
    );
    game.score = u32::MAX;
    game.state = GameState::Victory;
    assert_eq!(
        text(&game),
        Some(("VICTORY!", "Final Score: 4294967295".to_string()))
    );
}

#[test]
fn the_tracker_reports_what_changed_since_the_last_frame() {
    let mut tracker = FrameTracker::default();
    let board = vec![
        brick_at(0, 0, BrickKind::Armored, 2),
        brick_at(52, 0, BrickKind::Normal, 1),
        brick_at(104, 0, BrickKind::Indestructible, 0),
    ];
    let first = tracker.observe(&board, 1, 0);
    assert!(!first.score_increased);
    assert!(first.hit_flash.is_empty() && first.ghosts.is_empty());

    let hit = vec![brick_at(0, 0, BrickKind::Armored, 1)];
    let second = tracker.observe(&hit, 1, 10);
    assert!(second.score_increased);
    assert_eq!(second.hit_flash, vec![(0, 0)]);
    assert_eq!(second.ghosts, vec![board[1]]);

    let third = tracker.observe(&board, 2, 10);
    assert!(!third.score_increased);
    assert!(third.hit_flash.is_empty() && third.ghosts.is_empty());
    assert_eq!(tracker.prev_level, 2);
    assert_eq!(tracker.prev_bricks, board);
}

#[test]
fn at_most_eight_ghosts_are_drawn() {
    let mut tracker = FrameTracker::default();
    let board: Vec<Brick> = (0..12)
        .map(|i| brick_at(i * 52, 0, BrickKind::Normal, 1))
        .collect();
    tracker.observe(&board, 0, 0);
    let diff = tracker.observe(&Vec::new(), 0, 120);
    assert_eq!(diff.ghosts, board[..8].to_vec());
}

#[test]
fn a_frame_is_drawn_from_the_back_to_the_front() {
    let mut game = new_game();
    game.bricks = vec![
        brick_at(0, 0, BrickKind::Armored, 1),
        brick_at(52, 0, BrickKind::Indestructible, 0),
    ];
    let extra = Ball {
        x: 9.0,
        attached: false,
        ..game.ball
    };
    game.extra_balls = vec![extra];
    let capsule = PowerUp {
        x: 5.0,
        y: 6.0,
        kind: PowerUpKind::Widen,
    };
    game.powerups = vec![capsule];
    let mut tracker = FrameTracker::default();
    let before = vec![
        brick_at(0, 0, BrickKind::Armored, 2),
        brick_at(104, 0, BrickKind::Normal, 1),
    ];
    tracker.observe(&before, 1, 0);
    let diff = tracker.observe(&game.bricks, 1, 0);
    let drawn = RenderState::from(&game);
    let trail: VecDeque<(f32, f32)> = VecDeque::from(vec![(1.0, 2.0), (3.0, 4.0)]);

    let quads = frame_quads(&game, &drawn, &trail, &diff);

    let quad = |shape: Shape<f32>, look: Look, shaken: bool| Quad {
        shape,
        look,
        shaken,
    };
    let white = Look::Flat([100, 100, 100, 100]);
    let gold = Look::Flat([100, 78, 20, 100]);
    let step = |x: f32, y: f32, step: usize| Shape::Trail {
        x,
        y,
        radius: 6.0,
        step,
        steps: 2,
    };
    assert_eq!(
        quads,
        vec![
            quad(Shape::Paddle(drawn.paddle), Look::Sprite(SpriteId::Paddle), true),
            quad(step(1.0, 2.0, 1), gold, true),
            quad(step(3.0, 4.0, 2), gold, true),
            quad(Shape::Ball(drawn.ball), Look::Sprite(SpriteId::Ball), true),
            quad(Shape::Brick(game.bricks[0]), white, true),
            quad(
                Shape::Brick(game.bricks[1]),
                Look::Sprite(SpriteId::BrickIndestructible),
                true
            ),
            quad(Shape::Brick(before[1]), white, true),
            quad(Shape::Ball(extra), Look::Sprite(SpriteId::Ball), true),
            quad(Shape::Capsule(capsule), Look::Flat([35, 85, 40, 100]), true),
            quad(Shape::Screen, Look::Flat([0, 0, 0, 62]), false),
            quad(Shape::LifeIcon { x: 774, y: 26 }, gold, false),
            quad(Shape::LifeIcon { x: 750, y: 26 }, gold, false),
            quad(Shape::LifeIcon { x: 726, y: 26 }, gold, false),
        ]
    );

    game.state = GameState::Playing;
    game.lives = 0;
    let playing = frame_quads(&game, &drawn, &trail, &diff);
    assert_eq!(playing, quads[..9].to_vec());
}

#[test]
fn the_fullest_frame_fits() {
    let mut game = new_game();
    game.bricks = (0..300)
        .map(|i| brick_at(i * 52, 0, BrickKind::Normal, 1))
        .collect();
    game.extra_balls = vec![game.ball; 40];
    game.powerups = vec![
        PowerUp {
            x: 0.0,
            y: 0.0,
            kind: PowerUpKind::Slow
        };
        40
    ];
    game.lives = 99;
    let mut tracker = FrameTracker::default();
    tracker.observe(&game.bricks, 1, 0);
    game.bricks = (0..200)
        .map(|i| brick_at(i * 52, 0, BrickKind::Normal, 1))
        .collect();
    let diff = tracker.observe(&game.bricks, 1, 0);
    let trail: VecDeque<(f32, f32)> = VecDeque::from(vec![(0.0, 0.0); TRAIL_LEN]);
    let quads = frame_quads(&game, &RenderState::from(&game), &trail, &diff);
    assert_eq!(quads.len(), MAX_QUADS);
}

#[test]
fn the_lines_of_a_frame_are_placed_over_it() {
    let mut game = new_game();
    game.score = 70;
    game.level = 12;
    let lines = frame_lines(&game, false);
    let texts: Vec<&str> = lines.iter().map(|line| line.text.as_str()).collect();
    assert_eq!(
        texts,
        vec![
            "Score: 70",
            "Level 12",
            "ARKANOID",
            "SPACE: Start   ARROWS / A D: Move   ESC or P: Pause"
        ]
    );
    let places: Vec<(i64, i64)> = lines.iter().map(|line| (line.left, line.top)).collect();
    assert_eq!(places, vec![(18, 18), (0, 18), (0, 260), (0, 330)]);
    let sizes: Vec<(u32, u32)> = lines
        .iter()
        .map(|line| (line.font_size, line.line_height))
        .collect();
    assert_eq!(sizes, vec![(22, 26), (22, 26), (52, 58), (20, 26)]);
    assert_eq!(lines[0].align, Align::Left);
    assert!(lines[1..].iter().all(|line| line.align == Align::Center));
    assert_eq!(lines[2].color, [255, 210, 90]);
    assert_eq!(lines[3].color, [230, 232, 240]);

    game.state = GameState::Playing;
    assert_eq!(frame_lines(&game, false).len(), 2);
}

#[test]
fn a_flash_lasts_one_frame() {
    let mut tracker = FrameTracker::default();
    let fresh = vec![brick_at(0, 0, BrickKind::Armored, 2)];
    let hit = vec![brick_at(0, 0, BrickKind::Armored, 1)];
    tracker.observe(&fresh, 1, 0);
    assert_eq!(tracker.observe(&hit, 1, 0).hit_flash, vec![(0, 0)]);
    let after = tracker.observe(&hit, 1, 0);
    assert!(after.hit_flash.is_empty() && after.ghosts.is_empty());
}

#[test]
fn an_alpha_is_cut_off_at_its_ends() {
    let share = |value: f32| {
        Alpha {
            value,
            zero: 0.0,
            one: 1.0,
        }
        .clamped(&|a, b| a < b)
    };
    assert_eq!(share(-0.5), 0.0);
    assert_eq!(share(0.0), 0.0);
    assert_eq!(share(0.25), 0.25);
    assert_eq!(share(1.0), 1.0);
    assert_eq!(share(1.5), 1.0);
    assert_eq!(share(share(7.0)), share(7.0));
}

#[test]
fn the_menu_offers_random_levels_of_a_loaded_set() {
    let mut game = new_game();
    assert_eq!(frame_lines(&game, false).len(), 4);
    let lines = frame_lines(&game, true);
    assert_eq!(lines.len(), 5);
    assert_eq!(lines[4].text, "R: RANDOM10");
    assert_eq!((lines[4].left, lines[4].top), (0, 360));
    game.state = GameState::Paused;
    assert_eq!(frame_lines(&game, true).len(), 4);
}
