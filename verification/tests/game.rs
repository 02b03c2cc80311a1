use arkanoid::events::{GameEvent, PowerUpKind};
use arkanoid::game;
use arkanoid::game::{
    build_bricks, paddle_width, powerup_for, score_for_row, Brick, Effects, Fall, GameState,
    Input, Key, Mover, Play, Rest, Turn, BALL_RADIUS, PLAYFIELD_HEIGHT, PLAYFIELD_WIDTH,
};
use arkanoid::levels::{BrickKind, BRICK_HEIGHT, BRICK_WIDTH, LEVEL_COUNT};
use arkanoid::levelset::parse_levelset;

// -- a front end with `f32` coordinates ---------------------------------

type Paddle = arkanoid::game::Paddle<f32>;
type Ball = arkanoid::game::Ball<f32>;
type PowerUp = arkanoid::game::PowerUp<f32>;
type Game = arkanoid::game::Game<f32>;

const PADDLE_SPEED: f32 = game::PADDLE_SPEED as f32;

const BALL_LAUNCH_SPEED: f32 = game::BALL_LAUNCH_SPEED as f32;
const BALL_SPEED_CAP: f32 = game::BALL_SPEED_CAP as f32;
const BALL_SPEED_GROWTH: f32 = game::BALL_SPEED_GROWTH_PERCENT as f32 / 100.0;
/// Launch angle in degrees; 90 is straight up and 0 is to the right.
const BALL_LAUNCH_ANGLE_DEG: f32 = game::BALL_LAUNCH_ANGLE_DEG as f32;

/// Range of the angle at which a ball leaves the paddle, and half the width of
/// the zone around straight up that it avoids.
const EXIT_ANGLE_MIN_DEG: f32 = game::EXIT_ANGLE_MIN_DEG as f32;
const EXIT_ANGLE_MAX_DEG: f32 = game::EXIT_ANGLE_MAX_DEG as f32;
const EXIT_ANGLE_DEAD_ZONE_HALF_DEG: f32 = game::EXIT_ANGLE_DEAD_ZONE_HALF_DEG as f32;

const POWERUP_FALL_SPEED: f32 = game::POWERUP_FALL_SPEED as f32;
const WIDEN_DURATION_SECS: f32 = game::WIDEN_DURATION_SECS as f32;
const SLOW_MULTIPLIER: f32 = game::SLOW_PERCENT as f32 / 100.0;
const MULTIBALL_SPREAD_DEG: f32 = game::MULTIBALL_SPREAD_DEG as f32;

/// A whole number of pixels.
fn whole(n: i64) -> f32 {
    n as f32
}

/// A new game with `f32` coordinates.
fn new_game() -> Game {
    Game::new(whole)
}

/// Sides of a rectangle given by its center and size.
struct Sides {
    left: f32,
    right: f32,
    top: f32,
    bottom: f32,
}

fn paddle_sides(paddle: &Paddle) -> Sides {
    Sides {
        left: paddle.x - paddle.width / 2.0,
        right: paddle.x + paddle.width / 2.0,
        top: paddle.y - paddle.height / 2.0,
        bottom: paddle.y + paddle.height / 2.0,
    }
}

fn brick_sides(brick: &Brick) -> Sides {
    let (x, y) = (whole(brick.x), whole(brick.y));
    let (width, height) = (whole(brick.width), whole(brick.height));
    Sides {
        left: x - width / 2.0,
        right: x + width / 2.0,
        top: y - height / 2.0,
        bottom: y + height / 2.0,
    }
}

fn speed(ball: &Ball) -> f32 {
    (ball.vx * ball.vx + ball.vy * ball.vy).sqrt()
}

/// Whether a circle overlaps a rectangle.
fn overlaps(ball: &Ball, sides: &Sides) -> bool {
    let dx = ball.x - ball.x.clamp(sides.left, sides.right);
    let dy = ball.y - ball.y.clamp(sides.top, sides.bottom);
    dx * dx + dy * dy <= ball.radius * ball.radius
}

/// Turns the ball back at the face of the brick that it went into least, and
/// moves it out of that face.
fn reflect_off_brick_face(ball: &mut Ball, brick: &Brick) {
    let (x, y) = (whole(brick.x), whole(brick.y));
    let overlap_x = (ball.radius + whole(brick.width) / 2.0) - (ball.x - x).abs();
    let overlap_y = (ball.radius + whole(brick.height) / 2.0) - (ball.y - y).abs();
    if overlap_x < overlap_y {
        ball.vx = -ball.vx;
        ball.x += if ball.x < x { -overlap_x } else { overlap_x };
    } else {
        ball.vy = -ball.vy;
        ball.y += if ball.y < y { -overlap_y } else { overlap_y };
    }
}

/// Into how many equal steps to cut a tick, so that no step moves a ball by
/// more than its radius.
fn substep_count(speed: f32, radius: f32, dt_fixed: f32) -> u32 {
    if radius <= 0.0 {
        return 1;
    }
    let travel = speed * dt_fixed;
    if travel <= radius {
        1
    } else {
        (travel / radius).ceil() as u32
    }
}

/// The angle at which a ball leaves the paddle, from where it hit: -1 is the
/// left edge and 1 the right one. It is never straight up.
fn offset_to_exit_angle_deg(offset_norm: f32) -> f32 {
    let offset_norm = offset_norm.clamp(-1.0, 1.0);
    let half_range = (EXIT_ANGLE_MAX_DEG - EXIT_ANGLE_MIN_DEG) / 2.0;
    let angle = 90.0 - offset_norm * half_range;
    if (angle - 90.0).abs() < EXIT_ANGLE_DEAD_ZONE_HALF_DEG {
        if angle >= 90.0 {
            90.0 + EXIT_ANGLE_DEAD_ZONE_HALF_DEG
        } else {
            90.0 - EXIT_ANGLE_DEAD_ZONE_HALF_DEG
        }
    } else {
        angle
    }
}

/// The speed after a hit of the paddle.
fn grow_ball_speed(current_speed: f32) -> f32 {
    (current_speed * BALL_SPEED_GROWTH).min(BALL_SPEED_CAP)
}

fn rotate_velocity(vx: f32, vy: f32, angle_deg: f32) -> (f32, f32) {
    let (sin, cos) = angle_deg.to_radians().sin_cos();
    (vx * cos - vy * sin, vx * sin + vy * cos)
}

fn slowed_velocity(ball: &Ball) -> (f32, f32) {
    let speed = speed(ball);
    if speed <= 0.0 {
        return (ball.vx, ball.vy);
    }
    let scale = (speed * SLOW_MULTIPLIER).max(BALL_LAUNCH_SPEED) / speed;
    (ball.vx * scale, ball.vy * scale)
}

/// Bounces a ball off the left, right and top edge.
fn resolve_wall_collisions(ball: &mut Ball) {
    let width = whole(PLAYFIELD_WIDTH);
    if ball.x - ball.radius < 0.0 {
        ball.x = ball.radius;
        ball.vx = ball.vx.abs();
    } else if ball.x + ball.radius > width {
        ball.x = width - ball.radius;
        ball.vx = -ball.vx.abs();
    }
    if ball.y - ball.radius < 0.0 {
        ball.y = ball.radius;
        ball.vy = ball.vy.abs();
    }
}

/// Bounces a falling ball off the paddle.
fn resolve_paddle_collision(paddle: &Paddle, ball: &mut Ball) {
    if ball.vy <= 0.0 || !overlaps(ball, &paddle_sides(paddle)) {
        return;
    }
    let half_width = paddle.width / 2.0;
    let offset_norm = ((ball.x - paddle.x) / half_width).clamp(-1.0, 1.0);
    let angle_rad = offset_to_exit_angle_deg(offset_norm).to_radians();
    let speed = grow_ball_speed(speed(ball));
    ball.vx = speed * angle_rad.cos();
    ball.vy = -speed * angle_rad.sin();
    ball.y = paddle_sides(paddle).top - ball.radius;
}

/// Advances the game by one tick.
fn tick(game: &mut Game, input: &Input, dt_fixed: f32) {
    if !game.tick(input) {
        return;
    }
    let widen_timer = if game.widen_timer > 0.0 {
        (game.widen_timer - dt_fixed).max(0.0)
    } else {
        game.widen_timer
    };
    let widened = widen_timer > 0.0;
    let mut paddle = game.paddle;
    paddle.width = whole(paddle_width(widened));
    move_paddle(&mut paddle, input, dt_fixed);
    let angle_rad = BALL_LAUNCH_ANGLE_DEG.to_radians();
    let play = Play {
        widen_timer,
        widened,
        paddle_x: paddle.x,
        rest_y: paddle_sides(&paddle).top - game.ball.radius,
        launch_vx: BALL_LAUNCH_SPEED * angle_rad.cos(),
        launch_vy: -BALL_LAUNCH_SPEED * angle_rad.sin(),
    };
    if game.tick_playing(input, &play, whole) {
        advance_balls(game, dt_fixed);
        update_powerups(game, dt_fixed);
    }
}

fn move_paddle(paddle: &mut Paddle, input: &Input, dt_fixed: f32) {
    paddle.x += whole(input.direction()) * PADDLE_SPEED * dt_fixed;
    let half = paddle.width / 2.0;
    paddle.x = paddle.x.clamp(half, whole(PLAYFIELD_WIDTH) - half);
}

/// How a ball rests on the paddle.
fn rest_on(paddle: &Paddle) -> Rest<f32> {
    Rest::at(paddle_sides(paddle).top - whole(BALL_RADIUS), whole)
}

/// Moves every ball through one tick, in the order that the game asks for.
fn advance_balls(game: &mut Game, dt_fixed: f32) {
    let max_speed = std::iter::once(speed(&game.ball))
        .chain(game.extra_balls.iter().map(speed))
        .fold(0.0_f32, f32::max);
    let substeps = substep_count(max_speed, whole(BALL_RADIUS), dt_fixed);
    let sub_dt = dt_fixed / substeps as f32;
    let mut turn = Turn::begin(substeps);
    loop {
        let mut ball = match turn.next {
            Mover::Main => game.ball,
            Mover::Extra(index) => game.extra_balls[index],
            Mover::Done => break,
        };
        let lost = step_ball(game, &mut ball, sub_dt);
        let rest = rest_on(&game.paddle);
        turn = game.settle_ball(turn, ball, lost, &rest);
    }
}

/// Moves a ball by one step and says whether it dropped out.
fn step_ball(game: &mut Game, ball: &mut Ball, sub_dt: f32) -> bool {
    ball.x += ball.vx * sub_dt;
    ball.y += ball.vy * sub_dt;
    resolve_wall_collisions(ball);
    resolve_brick_collisions(game, ball);
    resolve_paddle_collision(&game.paddle, ball);
    ball.y - ball.radius > whole(PLAYFIELD_HEIGHT)
}

/// Lets a ball hit the first brick that it touches.
fn resolve_brick_collisions(game: &mut Game, ball: &mut Ball) {
    let touched: Vec<bool> = game
        .bricks
        .iter()
        .map(|brick| overlaps(ball, &brick_sides(brick)))
        .collect();
    assert!(game.has_room_for_points(&touched), "score overflow");
    if let Some(brick) = game.resolve_brick_collisions(&touched, whole) {
        reflect_off_brick_face(ball, &brick);
    }
}

/// Lets every capsule fall, and applies those that the paddle catches.
fn update_powerups(game: &mut Game, dt_fixed: f32) {
    let sides = paddle_sides(&game.paddle);
    let falls: Vec<Fall<f32>> = game
        .powerups
        .iter()
        .map(|powerup| {
            let y = powerup.y + POWERUP_FALL_SPEED * dt_fixed;
            Fall {
                y,
                caught: powerup.x >= sides.left
                    && powerup.x <= sides.right
                    && y >= sides.top
                    && y <= sides.bottom,
                below: y > whole(PLAYFIELD_HEIGHT),
            }
        })
        .collect();
    for kind in game.update_powerups(&falls) {
        let effects = effects_on(game);
        game.apply_powerup(kind, &effects, whole);
    }
}

/// What each power-up would do to the balls as they are.
fn effects_on(game: &Game) -> Effects<f32> {
    let ball = &game.ball;
    Effects {
        slowed: std::iter::once(ball)
            .chain(&game.extra_balls)
            .map(slowed_velocity)
            .collect(),
        left: rotate_velocity(ball.vx, ball.vy, -MULTIBALL_SPREAD_DEG),
        right: rotate_velocity(ball.vx, ball.vy, MULTIBALL_SPREAD_DEG),
    }
}

/// Applies a power-up to the balls as they are.
fn apply(game: &mut Game, kind: PowerUpKind) {
    let effects = effects_on(game);
    game.apply_powerup(kind, &effects, whole);
}

const DT: f32 = 1.0 / 120.0;

fn held(input_field: impl Fn(&mut Input)) -> Input {
    let mut input = Input::default();
    input_field(&mut input);
    input
}

/// A fresh `Game` forced straight into `Playing`, skipping the Menu ->
/// Playing transition -- for tests exercising in-flight gameplay
/// mechanics, where the transition itself isn't what's under test
/// (that has its own dedicated tests below).
fn playing_game() -> Game {
    let mut game = new_game();
    game.state = GameState::Playing;
    game
}

// -- state machine: Menu / Paused ------------------------------------

#[test]
fn game_starts_in_the_menu_state() {
    let game = new_game();
    assert_eq!(game.state, GameState::Menu);
}

#[test]
fn menu_ignores_movement_input_and_only_space_starts_play() {
    let mut game = new_game();
    tick(&mut game, &held(|i| i.left = true), DT);
    assert_eq!(game.state, GameState::Menu);

    tick(&mut game, &held(|i| i.space = true), DT);
    assert_eq!(game.state, GameState::Playing);
}

#[test]
fn pause_toggles_on_press_not_on_hold() {
    let mut game = playing_game();
    let press_pause = held(|i| i.pause = true);

    tick(&mut game, &press_pause, DT);
    assert_eq!(game.state, GameState::Paused, "first press pauses");

    // Holding the key down must not re-toggle on the very next tick.
    tick(&mut game, &press_pause, DT);
    assert_eq!(game.state, GameState::Paused, "held key doesn't re-toggle");

    tick(&mut game, &Input::default(), DT); // release
    tick(&mut game, &press_pause, DT); // press again
    assert_eq!(game.state, GameState::Playing, "second press resumes");
}

#[test]
fn paused_freezes_the_simulation() {
    let mut game = playing_game();
    game.state = GameState::Paused;
    let paddle_x_before = game.paddle.x;

    tick(&mut game, &held(|i| i.right = true), DT);

    assert_eq!(game.paddle.x, paddle_x_before);
}

// -- life loss / game over -----------------------------------------

#[test]
fn ball_past_the_bottom_edge_costs_a_life_and_reattaches_the_ball() {
    let mut game = playing_game();
    game.ball.attached = false;
    game.ball.x = 400.0;
    game.ball.y = whole(PLAYFIELD_HEIGHT) + game.ball.radius + 1.0;
    game.ball.vy = 100.0; // moving down when it happened

    tick(&mut game, &Input::default(), DT);

    assert_eq!(game.lives, 2);
    assert_eq!(game.state, GameState::Playing);
    assert!(game.ball.attached);
    assert!(game.events.contains(&GameEvent::BallLost));
    assert!(game.events.contains(&GameEvent::LifeLost));
}

#[test]
fn losing_the_last_life_transitions_to_game_over() {
    let mut game = playing_game();
    for _ in 0..3 {
        game.events.clear();
        game.ball.attached = false;
        game.ball.x = 400.0;
        game.ball.y = whole(PLAYFIELD_HEIGHT) + game.ball.radius + 1.0;
        game.ball.vy = 100.0;
        tick(&mut game, &Input::default(), DT);
    }

    assert_eq!(game.lives, 0);
    assert_eq!(game.state, GameState::GameOver);
    assert!(game.events.contains(&GameEvent::GameOver));
}

#[test]
fn game_over_freezes_the_simulation() {
    let mut game = new_game();
    game.lives = 0;
    game.state = GameState::GameOver;
    let paddle_x_before = game.paddle.x;

    tick(&mut game, &held(|i| i.right = true), DT);

    assert_eq!(game.paddle.x, paddle_x_before);
}

// -- playability: a scripted Input sequence over many ticks ---------

#[test]
fn scripted_input_sequence_moves_paddle_and_launches_the_ball() {
    let mut game = playing_game();
    let start_x = game.paddle.x;

    let move_left = held(|i| i.left = true);
    for _ in 0..30 {
        tick(&mut game, &move_left, DT);
    }
    assert!(game.paddle.x < start_x, "paddle should have moved left");
    assert!(game.ball.attached, "ball still rides the paddle pre-launch");

    tick(&mut game, &held(|i| i.space = true), DT);
    assert!(!game.ball.attached, "space launches the ball");
    assert!(game.ball.vy < 0.0, "launch goes upward");
    assert!(
        (speed(&game.ball) - BALL_LAUNCH_SPEED).abs() < 1e-3,
        "launches at 300 px/s"
    );
}

#[test]
fn paddle_movement_is_clamped_to_the_playfield_walls() {
    let mut game = playing_game();
    let hold_left = held(|i| i.left = true);
    for _ in 0..1000 {
        tick(&mut game, &hold_left, DT);
    }
    assert_eq!(game.paddle.x, game.paddle.width / 2.0);

    let hold_right = held(|i| i.right = true);
    for _ in 0..2000 {
        tick(&mut game, &hold_right, DT);
    }
    assert_eq!(game.paddle.x, whole(PLAYFIELD_WIDTH) - game.paddle.width / 2.0);
}

// -- wall bounces ----------------------------------------------------

#[test]
fn ball_bounces_off_left_right_and_top_walls() {
    let mut game = playing_game();
    game.ball.attached = false;

    game.ball.x = game.ball.radius - 1.0;
    game.ball.y = 300.0;
    game.ball.vx = -100.0;
    game.ball.vy = 0.0;
    tick(&mut game, &Input::default(), DT);
    assert!(game.ball.vx > 0.0, "left wall reflects vx positive");

    game.ball.x = whole(PLAYFIELD_WIDTH) - game.ball.radius + 1.0;
    game.ball.vx = 100.0;
    tick(&mut game, &Input::default(), DT);
    assert!(game.ball.vx < 0.0, "right wall reflects vx negative");

    game.ball.x = 400.0;
    game.ball.y = game.ball.radius - 1.0;
    game.ball.vx = 0.0;
    game.ball.vy = -100.0;
    tick(&mut game, &Input::default(), DT);
    assert!(game.ball.vy > 0.0, "top wall reflects vy positive");
}

// -- paddle reflection integration ------------------------------------

#[test]
fn ball_hitting_the_paddle_bounces_up_and_speeds_up() {
    let mut game = playing_game();
    game.ball.attached = false;
    game.ball.x = game.paddle.x; // dead center hit
    game.ball.y = paddle_sides(&game.paddle).top - game.ball.radius;
    game.ball.vx = 0.0;
    game.ball.vy = BALL_LAUNCH_SPEED; // moving down into the paddle

    tick(&mut game, &Input::default(), DT);

    assert!(game.ball.vy < 0.0, "reflects back upward");
    assert!(
        (speed(&game.ball) - grow_ball_speed(BALL_LAUNCH_SPEED)).abs() < 1e-2,
        "speed grew by the 4% hit bonus"
    );
}

#[test]
fn tick_can_be_called_repeatedly_without_panicking() {
    let mut game = playing_game();
    let input = Input::default();
    for _ in 0..1000 {
        tick(&mut game, &input, DT);
    }
}

// -- bricks: hit points, scoring, armored two-hit behavior ----------

/// A ball parked just below `brick`'s bottom face, moving straight up
/// into it -- the next `tick()` is guaranteed to register a hit on
/// that face (mirrors how `ball_hitting_the_paddle_...` above sets up
/// its paddle-collision test).
fn approach_from_below(brick: &Brick) -> Ball {
    Ball {
        x: whole(brick.x),
        y: brick_sides(brick).bottom + whole(BALL_RADIUS),
        vx: 0.0,
        vy: -300.0,
        radius: whole(BALL_RADIUS),
        attached: false,
    }
}

fn test_brick_at(x: i64, y: i64, kind: BrickKind, hits_remaining: u8, score: u32) -> Brick {
    Brick {
        x,
        y,
        width: BRICK_WIDTH,
        height: BRICK_HEIGHT,
        kind,
        hits_remaining,
        score,
    }
}

fn test_brick(kind: BrickKind, hits_remaining: u8, score: u32) -> Brick {
    test_brick_at(400, 300, kind, hits_remaining, score)
}

/// A second brick placed well away from the ball's path in these
/// tests, purely so destroying the *target* brick doesn't also empty
/// `game.bricks` and trigger a real level-completion transition --
/// that's covered by its own dedicated tests below.
fn decoy_brick() -> Brick {
    test_brick_at(50, 50, BrickKind::Normal, 1, 10)
}

#[test]
fn score_for_row_runs_70_at_the_top_down_to_a_floor_of_10() {
    assert_eq!(score_for_row(0), 70);
    assert_eq!(score_for_row(1), 60);
    assert_eq!(score_for_row(5), 20);
    assert_eq!(score_for_row(6), 10);
    // A grid deeper than 7 rows must not score below 10.
    assert_eq!(score_for_row(7), 10);
    assert_eq!(score_for_row(100), 10);
}

#[test]
fn normal_brick_is_destroyed_in_one_hit_and_scores_by_row() {
    let mut game = playing_game();
    let brick = test_brick(BrickKind::Normal, 1, 40);
    game.bricks = vec![decoy_brick(), brick];
    game.ball = approach_from_below(&brick);

    tick(&mut game, &Input::default(), DT);

    assert_eq!(game.bricks.len(), 1, "one hit destroys a normal brick");
    assert_eq!(game.bricks[0], decoy_brick(), "the decoy is untouched");
    assert_eq!(game.score, 40, "scored the brick's row value");
    assert!(game.events.contains(&GameEvent::BrickDestroyed));
    assert!(game.ball.vy > 0.0, "reflects back down off the brick");
}

#[test]
fn armored_brick_survives_one_hit_and_is_destroyed_by_a_second() {
    let mut game = playing_game();
    let brick = test_brick(BrickKind::Armored, 2, 50);
    game.bricks = vec![decoy_brick(), brick];
    game.ball = approach_from_below(&brick);

    tick(&mut game, &Input::default(), DT);

    assert_eq!(game.bricks.len(), 2, "armored brick survives the first hit");
    let armored = game.bricks.iter().find(|b| b.kind == BrickKind::Armored);
    assert_eq!(
        armored.map(|b| b.hits_remaining),
        Some(1),
        "first hit changes its state (2 -> 1 hits left)"
    );
    assert!(!game.events.contains(&GameEvent::BrickDestroyed));
    assert_eq!(game.score, 0, "not scored until actually destroyed");

    game.events.clear();
    let armored = *armored.unwrap();
    game.ball = approach_from_below(&armored);
    tick(&mut game, &Input::default(), DT);

    assert_eq!(game.bricks.len(), 1, "second hit destroys it");
    assert_eq!(game.bricks[0], decoy_brick(), "only the decoy is left");
    assert_eq!(game.score, 50);
    assert!(game.events.contains(&GameEvent::BrickDestroyed));
}

#[test]
fn indestructible_brick_is_never_destroyed_and_does_not_block_level_completion() {
    let mut game = playing_game();
    let wall = test_brick_at(100, 100, BrickKind::Indestructible, 0, 0);
    let normal = test_brick_at(400, 300, BrickKind::Normal, 1, 30);
    game.bricks = vec![wall, normal];
    // Pretend this is the last level so clearing it is observable as
    // an immediate, unambiguous state transition.
    game.level = LEVEL_COUNT;
    game.ball = approach_from_below(&normal);

    tick(&mut game, &Input::default(), DT);

    assert_eq!(
        game.bricks.len(),
        1,
        "only the indestructible brick is left"
    );
    assert_eq!(game.bricks[0].kind, BrickKind::Indestructible);
    assert_eq!(
        game.state,
        GameState::Victory,
        "the indestructible brick must not block level completion"
    );
}

// -- level load / progression ----------------------------------------

#[test]
fn new_game_starts_on_level_1_with_its_bricks_loaded() {
    let game = new_game();
    assert_eq!(game.level, 1);
    assert!(!game.bricks.is_empty());
}

#[test]
fn clearing_all_destructible_bricks_advances_to_the_next_level() {
    let mut game = playing_game();
    let brick = test_brick(BrickKind::Normal, 1, 10);
    game.bricks = vec![brick];
    game.ball = approach_from_below(&brick);

    tick(&mut game, &Input::default(), DT);

    assert_eq!(game.level, 2, "level 1 cleared -> now on level 2");
    assert_eq!(game.state, GameState::Playing);
    assert!(!game.bricks.is_empty(), "level 2's bricks are loaded");
    assert!(game.ball.attached, "ball re-attaches for the new level");
    assert!(game.events.contains(&GameEvent::LevelCleared));
}

#[test]
fn clearing_the_final_level_transitions_to_victory_instead_of_loading_another() {
    let mut game = playing_game();
    game.level = LEVEL_COUNT;
    let brick = test_brick(BrickKind::Normal, 1, 10);
    game.bricks = vec![brick];
    game.ball = approach_from_below(&brick);

    tick(&mut game, &Input::default(), DT);

    assert_eq!(game.state, GameState::Victory);
    assert!(game.events.contains(&GameEvent::Victory));
}

// -- power-ups: drop chance -------------------------------------------

#[test]
fn brick_destruction_drops_one_of_the_three_powerups_about_15_percent_of_the_time() {
    let mut game = playing_game();
    let mut spawned = 0;
    for _ in 0..2000 {
        game.powerups.clear();
        game.maybe_drop_powerup(400.0, 300.0);
        if let Some(powerup) = game.powerups.first() {
            spawned += 1;
            assert!(matches!(
                powerup.kind,
                PowerUpKind::Widen | PowerUpKind::Slow | PowerUpKind::Multiball
            ));
        }
    }
    // Loose bounds around 15% of 2000 (expect ~300, std
    // dev ~16) -- wide enough to never flake, tight enough to catch a
    // badly broken roll (e.g. always/never dropping).
    assert!(
        (200..=400).contains(&spawned),
        "expected roughly 15% of 2000 destroyed bricks to drop a power-up, got {spawned}"
    );
}

// -- power-ups: Widen (refresh, not stack) -----------------------------

#[test]
fn widen_powerup_grows_the_paddle_for_its_duration() {
    let mut game = playing_game();
    apply(&mut game, PowerUpKind::Widen);

    tick(&mut game, &Input::default(), DT);

    assert!((game.widen_timer - (WIDEN_DURATION_SECS - DT)).abs() < 1e-4);
    assert!((game.paddle.width - 150.0).abs() < 1e-4);
}

#[test]
fn widen_timer_refreshes_on_recatch_instead_of_stacking() {
    let mut game = playing_game();
    apply(&mut game, PowerUpKind::Widen);
    game.widen_timer = 2.0; // simulate it almost expired

    apply(&mut game, PowerUpKind::Widen); // caught again

    assert_eq!(
        game.widen_timer, WIDEN_DURATION_SECS,
        "re-catching resets the timer back to full duration instead of adding to it"
    );
}

#[test]
fn widen_effect_ends_and_paddle_returns_to_base_width_once_the_timer_expires() {
    let mut game = playing_game();
    apply(&mut game, PowerUpKind::Widen);

    let ticks = (WIDEN_DURATION_SECS / DT).ceil() as u32 + 1;
    for _ in 0..ticks {
        tick(&mut game, &Input::default(), DT);
    }

    assert_eq!(game.widen_timer, 0.0);
    assert_eq!(game.paddle.width, 100.0);
}

// -- power-ups: Slow (once, floored at launch speed) -------------------

#[test]
fn slow_powerup_reduces_ball_speed_by_30_percent_once() {
    let mut game = playing_game();
    game.ball.attached = false;
    game.ball.vx = BALL_SPEED_CAP;
    game.ball.vy = 0.0;

    apply(&mut game, PowerUpKind::Slow);

    assert!((speed(&game.ball) - BALL_SPEED_CAP * SLOW_MULTIPLIER).abs() < 1e-2);
}

#[test]
fn slow_powerup_never_drops_the_ball_below_launch_speed() {
    let mut game = playing_game();
    game.ball.attached = false;
    game.ball.vx = BALL_LAUNCH_SPEED; // already at the floor
    game.ball.vy = 0.0;

    apply(&mut game, PowerUpKind::Slow);

    assert!((speed(&game.ball) - BALL_LAUNCH_SPEED).abs() < 1e-2);
}

// -- power-ups: Multiball / last-ball-loses-life rule -------------------

#[test]
fn multiball_powerup_spawns_two_extra_balls_at_the_current_balls_position() {
    let mut game = playing_game();
    game.ball.attached = false;
    game.ball.x = 300.0;
    game.ball.y = 200.0;
    game.ball.vx = 100.0;
    game.ball.vy = -200.0;

    apply(&mut game, PowerUpKind::Multiball);

    assert_eq!(game.extra_balls.len(), 2);
    for extra in &game.extra_balls {
        assert!((extra.x - 300.0).abs() < 1e-4);
        assert!((extra.y - 200.0).abs() < 1e-4);
        assert!(!extra.attached);
    }
}

#[test]
fn a_life_is_lost_only_when_the_last_ball_of_a_multiball_fleet_drops() {
    let mut game = playing_game();
    game.ball.attached = false;
    game.ball.vx = 0.0;
    game.ball.vy = 100.0;
    apply(&mut game, PowerUpKind::Multiball); // 3 balls total now

    assert_eq!(game.lives, 3);

    // Drop the main ball and one extra past the bottom edge; the
    // second extra survives safely in the middle of the field.
    game.ball.y = whole(PLAYFIELD_HEIGHT) + game.ball.radius + 1.0;
    game.extra_balls[0].y = whole(PLAYFIELD_HEIGHT) + game.ball.radius + 1.0;
    game.extra_balls[0].vy = 100.0;
    game.extra_balls[1].y = 300.0;
    game.extra_balls[1].vy = 0.0;
    game.extra_balls[1].vx = 0.0;

    tick(&mut game, &Input::default(), DT);

    assert_eq!(
        game.lives, 3,
        "a life survives while any ball is still in play"
    );
    assert_eq!(game.state, GameState::Playing);
    assert!(
        !game.ball.attached,
        "the surviving ball is promoted into the main slot"
    );
    assert!(game.extra_balls.is_empty());

    // Now drop that last remaining ball too.
    game.ball.y = whole(PLAYFIELD_HEIGHT) + game.ball.radius + 1.0;
    game.ball.vy = 100.0;
    tick(&mut game, &Input::default(), DT);

    assert_eq!(game.lives, 2, "life is spent only once the LAST ball drops");
    assert!(game.ball.attached, "a fresh ball re-attaches to the paddle");
}

// -- power-ups: catch / miss integration --------------------------------

#[test]
fn falling_powerup_caught_by_the_paddle_applies_its_effect_and_fires_an_event() {
    let mut game = playing_game();
    game.ball.attached = false;
    game.ball.y = 50.0; // parked away from the paddle/bricks
    game.ball.vx = 0.0;
    game.ball.vy = 0.0;
    game.powerups.push(PowerUp {
        x: game.paddle.x,
        y: paddle_sides(&game.paddle).top,
        kind: PowerUpKind::Widen,
    });

    tick(&mut game, &Input::default(), DT);

    assert!(
        game.powerups.is_empty(),
        "caught power-up is removed from the falling list"
    );
    assert!(game
        .events
        .contains(&GameEvent::PowerUpCaught(PowerUpKind::Widen)));
    assert!(game.widen_timer > 0.0);
}

#[test]
fn falling_powerup_that_reaches_the_bottom_uncaught_is_simply_removed() {
    let mut game = playing_game();
    game.ball.attached = false;
    game.ball.y = 50.0;
    game.ball.vx = 0.0;
    game.ball.vy = 0.0;
    game.powerups.push(PowerUp {
        x: 10.0, // far from the paddle
        y: whole(PLAYFIELD_HEIGHT) + 1.0,
        kind: PowerUpKind::Slow,
    });

    tick(&mut game, &Input::default(), DT);

    assert!(game.powerups.is_empty());
    assert!(!game
        .events
        .contains(&GameEvent::PowerUpCaught(PowerUpKind::Slow)));
}

// -- a scripted game ----------------------------------------------------

/// One level with a small cluster of normal bricks.
fn clearable_cluster() -> String {
    let mut content = String::from("Level:\nHomemade\nClearable Cluster\nBricks:\n");
    for row in 0..18 {
        content.push_str(if row == 4 {
            "....aaaaaa....\n"
        } else {
            "..............\n"
        });
    }
    content.push_str("Bonus:\n");
    for _ in 0..18 {
        content.push_str("..............\n");
    }
    content
}

#[test]
fn scripted_headless_play_clears_the_fixtures_first_level() {
    let set = parse_levelset("cluster.lbl", &clearable_cluster());
    let level_one = &set.levels[0];
    assert_eq!(level_one.name, "Clearable Cluster");
    assert!(!level_one.bricks.is_empty());

    const OFFSET_X: i64 = 36;
    const MARGIN_TOP: i64 = 60;

    let mut game = Game::with_seed(0xA6, whole);
    game.state = GameState::Playing;
    game.bricks = level_one
        .bricks
        .iter()
        .map(|spawn| Brick {
            x: spawn.x + OFFSET_X + BRICK_WIDTH / 2,
            y: spawn.y + MARGIN_TOP + BRICK_HEIGHT / 2,
            width: BRICK_WIDTH,
            height: BRICK_HEIGHT,
            kind: spawn.kind,
            hits_remaining: match spawn.kind {
                BrickKind::Normal => 1,
                BrickKind::Armored => 2,
                BrickKind::Indestructible => 0,
            },
            score: 10,
        })
        .collect();

    const MAX_TICKS: u32 = 20_000;

    // Always steer the paddle toward the ball and hold Space.
    for _ in 0..MAX_TICKS {
        let input = Input {
            left: game.ball.x < game.paddle.x,
            right: game.ball.x > game.paddle.x,
            space: true,
            pause: false,
        };
        tick(&mut game, &input, DT);

        assert_ne!(
            game.state,
            GameState::GameOver,
            "scripted play lost all lives before clearing the level"
        );
        if game.events.contains(&GameEvent::LevelCleared) {
            return;
        }
    }
    panic!("scripted play did not clear the level within {MAX_TICKS} ticks");
}

#[test]
fn a_seeded_game_can_be_replayed() {
    let play = |seed: u64| {
        let mut game = Game::with_seed(seed, whole);
        game.state = GameState::Playing;
        for _ in 0..400 {
            game.maybe_drop_powerup(1.0, 2.0);
        }
        let kinds: Vec<PowerUpKind> = game.powerups.iter().map(|p| p.kind).collect();
        (kinds, game.events)
    };
    assert_eq!(play(7), play(7));
    assert_ne!(play(7), play(8));
}

// -- the rules without any motion ---------------------------------------

#[test]
fn a_new_game_is_at_its_start() {
    let game = new_game();
    assert_eq!((game.paddle.x, game.paddle.y), (400.0, 562.0));
    assert_eq!((game.paddle.width, game.paddle.height), (100.0, 16.0));
    assert_eq!((game.ball.x, game.ball.y), (400.0, 548.0));
    assert_eq!((game.ball.vx, game.ball.vy), (0.0, 0.0));
    assert_eq!(game.ball.radius, 6.0);
    assert!(game.ball.attached);
    assert_eq!((game.lives, game.score, game.level), (3, 0, 1));
    assert_eq!(game.widen_timer, 0.0);
    assert!(game.extra_balls.is_empty() && game.powerups.is_empty() && game.events.is_empty());
    assert_eq!(game.campaign.len(), 3);
    assert_eq!(game.bricks, game.campaign[0]);
    assert_eq!(game.bricks, build_bricks(0));
}

#[test]
fn boards_are_centered_and_score_by_row() {
    let board = build_bricks(1);
    assert_eq!(board.len(), 70);
    assert_eq!(
        board[0],
        Brick {
            x: 62,
            y: 71,
            width: 52,
            height: 22,
            kind: BrickKind::Armored,
            hits_remaining: 2,
            score: 70
        }
    );
    assert_eq!(
        board[69],
        Brick {
            x: 738,
            y: 159,
            width: 52,
            height: 22,
            kind: BrickKind::Normal,
            hits_remaining: 1,
            score: 30
        }
    );
    let walls = build_bricks(2);
    assert_eq!(walls[0].kind, BrickKind::Indestructible);
    assert_eq!((walls[0].hits_remaining, walls[0].score), (0, 0));
}

#[test]
fn the_built_in_levels_hold_8340_points() {
    let points: Vec<u32> = (0..LEVEL_COUNT)
        .map(|index| build_bricks(index).iter().map(|brick| brick.score).sum())
        .collect();
    assert_eq!(points, vec![3080, 3500, 1760]);
    assert_eq!(points.iter().sum::<u32>(), 8340);
}

#[test]
fn breaking_every_brick_wins_with_all_points() {
    let mut game = playing_game();
    let rest = rest_on(&game.paddle);
    let mut hits = 0;
    while game.state == GameState::Playing {
        game.ball.attached = false;
        while let Some(index) = game
            .bricks
            .iter()
            .position(|brick| brick.kind != BrickKind::Indestructible)
        {
            let mut touched = vec![false; game.bricks.len()];
            touched[index] = true;
            game.resolve_brick_collisions(&touched, whole);
            hits += 1;
        }
        let ball = game.ball;
        let next = game.settle_ball(Turn::begin(1), ball, true, &rest);
        assert_eq!(next.next, Mover::Done);
    }
    assert_eq!(game.state, GameState::Victory);
    assert_eq!(game.score, 8340);
    assert_eq!(game.lives, 3, "clearing a level comes before losing a ball");
    assert_eq!(hits, 56 + 70 + 28 + 38 + 10);
    assert_eq!(
        game.events
            .iter()
            .filter(|&&event| event == GameEvent::LevelCleared)
            .count(),
        3
    );
    assert_eq!(game.events.last(), Some(&GameEvent::Victory));
}

#[test]
fn keys_steer_launch_and_pause() {
    let mut input = Input::default();
    for (key, other) in [(Key::ArrowLeft, Key::A), (Key::ArrowRight, Key::D)] {
        input.set_key(key, true);
        assert_ne!(input, Input::default());
        input.set_key(other, false);
        assert_eq!(input, Input::default());
    }
    input.set_key(Key::Space, true);
    assert!(input.space);
    input.set_key(Key::P, true);
    assert!(input.pause);
    input.set_key(Key::Escape, false);
    assert!(!input.pause);
    let before = input;
    input.set_key(Key::Other, true);
    assert_eq!(input, before);
}

#[test]
fn opposite_keys_cancel_out() {
    assert_eq!(Input::default().direction(), 0);
    assert_eq!(held(|i| i.left = true).direction(), -1);
    assert_eq!(held(|i| i.right = true).direction(), 1);
    let both = held(|i| {
        i.left = true;
        i.right = true;
    });
    assert_eq!(both.direction(), 0);
}

#[test]
fn a_widened_paddle_is_half_as_wide_again() {
    assert_eq!(paddle_width(false), 100);
    assert_eq!(paddle_width(true), 150);
}

#[test]
fn a_roll_stands_for_one_of_three_power_ups() {
    assert_eq!(powerup_for(0), PowerUpKind::Widen);
    assert_eq!(powerup_for(1), PowerUpKind::Slow);
    assert_eq!(powerup_for(2), PowerUpKind::Multiball);
}

#[test]
fn only_the_first_touched_brick_is_hit() {
    let mut game = playing_game();
    let bricks = vec![
        test_brick_at(0, 0, BrickKind::Normal, 1, 10),
        test_brick_at(52, 0, BrickKind::Normal, 1, 20),
        test_brick_at(104, 0, BrickKind::Normal, 1, 40),
    ];
    game.bricks = bricks.clone();
    let struck = game.resolve_brick_collisions(&vec![false, true, true], whole);
    assert_eq!(struck, Some(bricks[1]));
    assert_eq!(game.bricks, vec![bricks[0], bricks[2]]);
    assert_eq!(game.score, 20);
    assert_eq!(
        game.events[..2],
        [
            GameEvent::BrickDestroyed,
            GameEvent::BrickDestroyedAt {
                x: 52,
                y: 0,
                width: 52,
                height: 22,
                kind: BrickKind::Normal
            }
        ]
    );
    assert_eq!(
        game.resolve_brick_collisions(&vec![false, false], whole),
        None
    );
}

#[test]
fn an_indestructible_brick_only_bounces_the_ball() {
    let mut game = playing_game();
    let wall = test_brick_at(0, 0, BrickKind::Indestructible, 0, 0);
    game.bricks = vec![wall];
    assert_eq!(game.resolve_brick_collisions(&vec![true], whole), Some(wall));
    assert_eq!(game.bricks, vec![wall]);
    assert!(game.events.is_empty());
}

#[test]
fn a_dropped_power_up_falls_from_its_brick() {
    let mut game = Game::with_seed(3, whole);
    let brick = test_brick_at(123, 45, BrickKind::Normal, 1, 10);
    while game.powerups.is_empty() {
        game.bricks = vec![brick];
        game.events.clear();
        game.resolve_brick_collisions(&vec![true], whole);
    }
    let powerup = game.powerups[0];
    assert_eq!((powerup.x, powerup.y), (123.0, 45.0));
    assert_eq!(
        game.events.last(),
        Some(&GameEvent::PowerUpSpawned(powerup.kind))
    );
}

#[test]
fn all_three_power_ups_drop() {
    let mut game = Game::with_seed(1, whole);
    for _ in 0..2000 {
        game.maybe_drop_powerup(0.0, 0.0);
    }
    for kind in [
        PowerUpKind::Widen,
        PowerUpKind::Slow,
        PowerUpKind::Multiball,
    ] {
        let count = game.powerups.iter().filter(|p| p.kind == kind).count();
        assert!((50..=150).contains(&count), "{kind:?}: {count}");
    }
}

#[test]
fn a_given_drop_is_reported() {
    let mut game = playing_game();
    game.drop_powerup(None, 1.0, 2.0);
    assert!(game.powerups.is_empty() && game.events.is_empty());
    game.drop_powerup(Some(PowerUpKind::Slow), 1.0, 2.0);
    assert_eq!(
        game.powerups,
        vec![PowerUp {
            x: 1.0,
            y: 2.0,
            kind: PowerUpKind::Slow
        }]
    );
    assert_eq!(
        game.events,
        vec![GameEvent::PowerUpSpawned(PowerUpKind::Slow)]
    );
}

fn ball_at(x: f32) -> Ball {
    Ball {
        x,
        y: 300.0,
        vx: 0.0,
        vy: 0.0,
        radius: 6.0,
        attached: false,
    }
}

#[test]
fn every_ball_moves_once_and_survivors_keep_their_order() {
    let mut game = playing_game();
    game.ball = ball_at(0.0);
    game.extra_balls = vec![ball_at(1.0), ball_at(2.0), ball_at(3.0), ball_at(4.0)];
    let rest = rest_on(&game.paddle);
    let mut turn = Turn::begin(2);
    let mut moved = Vec::new();
    for _ in 0..5 {
        let mut ball = match turn.next {
            Mover::Main => game.ball,
            Mover::Extra(index) => game.extra_balls[index],
            Mover::Done => break,
        };
        moved.push(ball.x);
        let lost = ball.x == 2.0 || ball.x == 4.0;
        ball.x += 10.0;
        turn = game.settle_ball(turn, ball, lost, &rest);
    }
    assert_eq!(moved, vec![0.0, 1.0, 2.0, 3.0, 4.0]);
    assert_eq!(game.ball.x, 10.0);
    let extras: Vec<f32> = game.extra_balls.iter().map(|ball| ball.x).collect();
    assert_eq!(extras, vec![11.0, 13.0]);
    assert_eq!(game.events, vec![GameEvent::BallLost; 2]);
    assert_eq!(
        turn,
        Turn {
            left: 1,
            main_lost: false,
            next: Mover::Main
        }
    );
}

#[test]
fn the_last_extra_ball_takes_the_place_of_a_lost_main_ball() {
    let mut game = playing_game();
    game.ball = ball_at(0.0);
    game.extra_balls = vec![ball_at(1.0), ball_at(2.0)];
    let rest = rest_on(&game.paddle);
    let turn = game.settle_ball(Turn::begin(1), ball_at(0.0), true, &rest);
    assert!(turn.main_lost);
    let turn = game.settle_ball(turn, ball_at(1.0), false, &rest);
    let turn = game.settle_ball(turn, ball_at(2.0), false, &rest);
    assert_eq!(turn.next, Mover::Done);
    assert_eq!(game.ball, ball_at(2.0));
    assert_eq!(game.extra_balls, vec![ball_at(1.0)]);
    assert_eq!(game.lives, 3);
    assert_eq!(game.events, vec![GameEvent::BallLost]);
}

#[test]
fn losing_a_life_clears_the_field_and_ends_the_flight() {
    let mut game = playing_game();
    game.ball = ball_at(0.0);
    game.powerups = vec![PowerUp {
        x: 0.0,
        y: 0.0,
        kind: PowerUpKind::Slow,
    }];
    let rest = rest_on(&game.paddle);
    let turn = game.settle_ball(Turn::begin(5), ball_at(0.0), true, &rest);
    assert_eq!(turn.next, Mover::Done);
    assert_eq!(game.lives, 2);
    assert!(game.powerups.is_empty());
    assert_eq!(game.ball, Ball::attached_to(&game.paddle, &rest));
    assert_eq!(game.events, vec![GameEvent::BallLost, GameEvent::LifeLost]);
}

#[test]
fn a_flight_without_substeps_is_over() {
    assert_eq!(Turn::begin(0).next, Mover::Done);
    assert_eq!(Turn::begin(3).next, Mover::Main);
}

#[test]
fn the_next_level_starts_afresh() {
    let mut game = playing_game();
    game.bricks = vec![test_brick_at(0, 0, BrickKind::Indestructible, 0, 0)];
    game.ball = ball_at(0.0);
    game.extra_balls = vec![];
    game.powerups = vec![PowerUp {
        x: 0.0,
        y: 0.0,
        kind: PowerUpKind::Slow,
    }];
    let rest = rest_on(&game.paddle);
    game.settle_ball(Turn::begin(1), ball_at(0.0), false, &rest);
    assert_eq!(game.level, 2);
    assert_eq!(game.bricks, build_bricks(1));
    assert!(game.ball.attached && game.powerups.is_empty());
    assert_eq!(game.events, vec![GameEvent::LevelCleared]);
}

#[test]
fn capsules_fall_are_caught_or_drop_out() {
    let mut game = playing_game();
    let capsule = |x: f32, kind: PowerUpKind| PowerUp { x, y: 1.0, kind };
    game.powerups = vec![
        capsule(0.0, PowerUpKind::Widen),
        capsule(1.0, PowerUpKind::Slow),
        capsule(2.0, PowerUpKind::Multiball),
        capsule(3.0, PowerUpKind::Widen),
    ];
    let fall = |caught: bool, below: bool| Fall {
        y: 9.0,
        caught,
        below,
    };
    let caught = game.update_powerups(&vec![
        fall(true, false),
        fall(false, false),
        fall(true, true),
        fall(false, true),
    ]);
    assert_eq!(caught, vec![PowerUpKind::Widen, PowerUpKind::Multiball]);
    assert_eq!(
        game.powerups,
        vec![PowerUp {
            x: 1.0,
            y: 9.0,
            kind: PowerUpKind::Slow
        }]
    );
    assert_eq!(
        game.events,
        vec![
            GameEvent::PowerUpCaught(PowerUpKind::Widen),
            GameEvent::PowerUpCaught(PowerUpKind::Multiball)
        ]
    );
}

#[test]
fn slowing_gives_every_ball_its_own_velocity() {
    let mut game = playing_game();
    game.ball = ball_at(0.0);
    game.extra_balls = vec![ball_at(1.0), ball_at(2.0)];
    let effects = Effects {
        slowed: vec![(1.0, 2.0), (3.0, 4.0), (5.0, 6.0)],
        left: (0.0, 0.0),
        right: (0.0, 0.0),
    };
    game.apply_powerup(PowerUpKind::Slow, &effects, whole);
    assert_eq!((game.ball.x, game.ball.vx, game.ball.vy), (0.0, 1.0, 2.0));
    let extras: Vec<(f32, f32, f32)> = game
        .extra_balls
        .iter()
        .map(|ball| (ball.x, ball.vx, ball.vy))
        .collect();
    assert_eq!(extras, vec![(1.0, 3.0, 4.0), (2.0, 5.0, 6.0)]);
}

#[test]
fn an_attached_ball_rides_the_paddle() {
    let mut game = playing_game();
    let play = Play {
        widen_timer: 1.0,
        widened: true,
        paddle_x: 200.0,
        rest_y: 548.0,
        launch_vx: 150.0,
        launch_vy: -260.0,
    };
    assert!(!game.tick_playing(&Input::default(), &play, whole));
    assert_eq!((game.ball.x, game.ball.y), (200.0, 548.0));
    assert!(game.ball.attached);
    assert_eq!(
        game.paddle,
        Paddle {
            x: 200.0,
            y: 562.0,
            width: 150.0,
            height: 16.0,
        }
    );
    assert_eq!(game.widen_timer, 1.0);
    assert!(!game.tick_playing(&held(|i| i.space = true), &play, whole));
    assert!(!game.ball.attached);
    assert_eq!((game.ball.vx, game.ball.vy), (150.0, -260.0));
    assert!(game.tick_playing(&Input::default(), &play, whole));
}

#[test]
fn external_levels_replace_the_built_in_ones() {
    let set = parse_levelset("cluster.lbl", &(clearable_cluster() + &clearable_cluster()));
    let mut game = new_game();
    game.load_external_levels(&set.levels);
    assert_eq!(game.level, 1);
    assert_eq!(game.campaign.len(), 2);
    assert_eq!(game.bricks.len(), 6);
    assert_eq!(
        game.bricks[0],
        Brick {
            x: 36 + 4 * 52 + 26,
            y: 60 + 4 * 22 + 11,
            width: 52,
            height: 22,
            kind: BrickKind::Normal,
            hits_remaining: 1,
            score: 30
        }
    );
    let before = game.bricks.clone();
    game.load_external_levels(&Vec::new());
    assert_eq!(game.bricks, before);
    assert_eq!(game.campaign.len(), 2);
}

#[test]
fn a_finished_game_stays_finished() {
    for state in [GameState::GameOver, GameState::Victory] {
        let mut game = new_game();
        game.state = state;
        let all = Input {
            left: true,
            right: false,
            space: true,
            pause: true,
        };
        for _ in 0..3 {
            assert!(!game.tick(&all));
            assert!(!game.tick(&Input::default()));
        }
        assert_eq!(game.state, state);
    }
}

/// The points on this and all later boards.
fn points_left(game: &Game) -> u32 {
    let sum = |bricks: &Vec<Brick>| bricks.iter().map(|brick| brick.score).sum::<u32>();
    let later: u32 = game.campaign[game.level..].iter().map(sum).sum();
    if game.state == GameState::Victory {
        0
    } else {
        sum(&game.bricks) + later
    }
}

#[test]
fn a_played_game_stays_consistent_and_loses_no_points() {
    for seed in 0..4 {
        let mut game = Game::with_seed(seed, whole);
        let mut events = 0;
        let mut score = 0;
        for number in 0..6000u32 {
            let aim = if number / 900 % 3 == 2 { 150.0 } else { 0.0 };
            let input = Input {
                left: game.ball.x + aim < game.paddle.x,
                right: game.ball.x + aim > game.paddle.x,
                space: true,
                pause: number % 1000 == 999,
            };
            let before = game.lives;
            let state = game.state;
            tick(&mut game, &input, DT);
            assert!(game.lives <= before && before <= game.lives + 1);
            assert_eq!(game.lives == 0, game.state == GameState::GameOver);
            assert!((1..=3).contains(&game.level));
            if game.ball.attached {
                assert!(game.extra_balls.is_empty() && game.powerups.is_empty());
            }
            assert!(game.extra_balls.iter().all(|ball| !ball.attached));
            assert!(game.score >= score);
            score = game.score;
            assert_eq!(game.score + points_left(&game), 8340);
            assert!(game.events.len() >= events);
            events = game.events.len();
            let allowed = state == game.state
                || matches!(
                    (state, game.state),
                    (GameState::Menu, GameState::Playing)
                        | (GameState::Playing, GameState::Paused)
                        | (GameState::Paused, GameState::Playing)
                        | (GameState::Playing, GameState::GameOver)
                        | (GameState::Playing, GameState::Victory)
                );
            assert!(allowed, "{state:?} -> {:?}", game.state);
        }
        assert!(game.score > 0);
    }
}

#[test]
fn every_broken_brick_is_one_less_to_break() {
    let mut game = playing_game();
    game.bricks = vec![
        test_brick_at(0, 0, BrickKind::Armored, 2, 10),
        test_brick_at(52, 0, BrickKind::Indestructible, 0, 0),
        test_brick_at(104, 0, BrickKind::Normal, 1, 10),
    ];
    assert_eq!(game.destructible_bricks_remaining(), 2);
    game.resolve_brick_collisions(&vec![true, false, false], whole);
    assert_eq!(game.destructible_bricks_remaining(), 2, "cracked only");
    game.resolve_brick_collisions(&vec![false, true, false], whole);
    assert_eq!(game.destructible_bricks_remaining(), 2, "bounced only");
    game.resolve_brick_collisions(&vec![true, false, false], whole);
    assert_eq!(game.destructible_bricks_remaining(), 1);
}

#[test]
fn built_in_bricks_lie_in_the_playfield_without_overlap() {
    for index in 0..LEVEL_COUNT {
        let board = build_bricks(index);
        for (i, a) in board.iter().enumerate() {
            assert!(a.x - a.width / 2 >= 0 && a.x + a.width / 2 <= PLAYFIELD_WIDTH);
            assert!(a.y - a.height / 2 >= 0 && a.y + a.height / 2 <= PLAYFIELD_HEIGHT);
            for b in &board[i + 1..] {
                assert!((a.x - b.x).abs() >= a.width || (a.y - b.y).abs() >= a.height);
            }
        }
    }
}

#[test]
fn a_brick_without_hits_left_breaks_too() {
    let mut game = playing_game();
    game.bricks = vec![test_brick_at(0, 0, BrickKind::Armored, 0, 5)];
    game.resolve_brick_collisions(&vec![true], whole);
    assert!(game.bricks.is_empty());
    assert_eq!(game.score, 5);
}

#[test]
fn the_score_may_fill_its_type() {
    let mut game = playing_game();
    game.score = u32::MAX - 5;
    game.bricks = vec![test_brick_at(0, 0, BrickKind::Normal, 1, 5)];
    game.resolve_brick_collisions(&vec![true], whole);
    assert_eq!(game.score, u32::MAX);
}

#[test]
fn a_life_lost_at_zero_lives_stays_at_zero() {
    let mut game = playing_game();
    game.lives = 0;
    game.ball = ball_at(0.0);
    let rest = rest_on(&game.paddle);
    game.settle_ball(Turn::begin(1), ball_at(0.0), true, &rest);
    assert_eq!(game.lives, 0);
    assert_eq!(game.state, GameState::GameOver);
}

#[test]
fn only_a_brick_that_breaks_needs_room_in_the_score() {
    let mut game = playing_game();
    game.score = u32::MAX - 5;
    game.bricks = vec![
        test_brick_at(0, 0, BrickKind::Armored, 2, 6),
        test_brick_at(52, 0, BrickKind::Indestructible, 0, 6),
        test_brick_at(104, 0, BrickKind::Normal, 1, 5),
        test_brick_at(156, 0, BrickKind::Normal, 1, 6),
    ];
    assert!(game.has_room_for_points(&vec![false; 4]));
    assert!(game.has_room_for_points(&vec![true, false, false, false]));
    assert!(game.has_room_for_points(&vec![false, true, false, true]));
    assert!(game.has_room_for_points(&vec![false, false, true, true]));
    assert!(!game.has_room_for_points(&vec![false, false, false, true]));
}

#[test]
fn every_tick_reports_exactly_what_it_did() {
    let mut game = Game::with_seed(5, whole);
    let input = held(|i| i.space = true);
    let mut broken = 0;
    for _ in 0..60_000 {
        let (score, lives, level, state) = (game.score, game.lives, game.level, game.state);
        game.events.clear();
        tick(&mut game, &input, 1.0 / 120.0);
        let times = |event: GameEvent| game.events.iter().filter(|&&e| e == event).count();
        let ended = state != GameState::GameOver && game.state == GameState::GameOver;
        let won = state != GameState::Victory && game.state == GameState::Victory;
        assert!(score <= game.score);
        assert_eq!(times(GameEvent::LifeLost), (lives - game.lives) as usize);
        assert!(lives - game.lives <= 1);
        assert_eq!(times(GameEvent::GameOver), ended as usize);
        assert_eq!(times(GameEvent::Victory), won as usize);
        assert_eq!(
            times(GameEvent::LevelCleared),
            game.level - level + won as usize
        );
        assert!(game.lives == lives || game.level == level);
        assert_eq!(game.state == GameState::GameOver, game.lives == 0);
        broken += times(GameEvent::BrickDestroyed);
    }
    assert_eq!(game.state, GameState::GameOver);
    assert!(broken > 0);
}

#[test]
fn speeds_angles_and_times_have_their_values() {
    assert_eq!(PADDLE_SPEED, 520.0);
    assert_eq!(BALL_LAUNCH_SPEED, 300.0);
    assert_eq!(BALL_SPEED_CAP, 700.0);
    assert_eq!(BALL_LAUNCH_ANGLE_DEG, 60.0);
    assert_eq!(EXIT_ANGLE_MIN_DEG, 30.0);
    assert_eq!(EXIT_ANGLE_MAX_DEG, 150.0);
    assert_eq!(EXIT_ANGLE_DEAD_ZONE_HALF_DEG, 5.0);
    assert_eq!(POWERUP_FALL_SPEED, 140.0);
    assert_eq!(WIDEN_DURATION_SECS, 15.0);
    assert_eq!(MULTIBALL_SPREAD_DEG, 20.0);
    assert_eq!(BALL_SPEED_GROWTH, 1.04);
    assert_eq!(SLOW_MULTIPLIER, 0.7);
}

#[test]
fn every_ball_that_drops_out_in_a_tick_is_reported() {
    let falling = |x: f32| Ball {
        y: 605.9,
        vy: 300.0,
        ..ball_at(x)
    };
    let mut game = playing_game();
    game.ball = falling(100.0);
    game.extra_balls = vec![falling(200.0), ball_at(300.0), falling(500.0)];
    tick(&mut game, &Input::default(), 1.0 / 120.0);
    assert_eq!(game.events, vec![GameEvent::BallLost; 3]);
    assert_eq!((game.ball.x, game.lives), (300.0, 3));
    assert!(game.extra_balls.is_empty());

    game.events.clear();
    game.ball = falling(100.0);
    game.extra_balls = vec![falling(200.0)];
    game.bricks.clear();
    tick(&mut game, &Input::default(), 1.0 / 120.0);
    assert_eq!(
        game.events,
        vec![GameEvent::BallLost, GameEvent::LevelCleared],
        "the main ball of a cleared board is not reported"
    );
    assert_eq!((game.level, game.lives), (2, 3));
}

#[test]
fn a_tick_keeps_the_paddle_at_its_height() {
    let mut game = playing_game();
    let (y, height) = (game.paddle.y, game.paddle.height);
    game.widen_timer = 1.0;
    tick(&mut game, &held(|i| i.left = true), 1.0 / 120.0);
    assert_eq!((game.paddle.y, game.paddle.height), (y, height));
    assert_eq!(game.paddle.width, 150.0);
    assert!(game.paddle.x < 400.0);
}

#[test]
fn a_resting_ball_has_no_speed_and_the_radius_of_every_ball() {
    let rest = Rest::at(12.5, whole);
    assert_eq!((rest.y, rest.zero, rest.radius), (12.5, 0.0, 6.0));
}
