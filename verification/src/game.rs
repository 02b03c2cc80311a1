//! The game: its states, its board, its balls and what becomes of them.
//!
//! Positions, speeds and times are of a type `R` that this module only stores
//! and hands back. The front end moves the bodies and tells the game what it
//! found: which bricks a ball touches, whether it dropped out, how far a
//! capsule fell. The game decides what follows.
//!
//! One tick runs as follows. [`Game::tick`] runs the state machine and says
//! whether the board is in play. If it is, [`Game::tick_playing`] takes the
//! moved paddle and says whether the balls fly. If they do, [`Turn::begin`]
//! starts a turn that names the ball to move next; for each,
//! [`Game::resolve_brick_collisions`] takes which bricks it touches and
//! [`Game::settle_ball`] where it ended up. At last [`Game::update_powerups`]
//! takes the fallen capsules and [`Game::apply_powerup`] the effect of each
//! that was caught.

use rand::rngs::StdRng;
use vstd::prelude::*;

use crate::chance;
use crate::chance::{draw_below, draw_ratio, fresh_rng, seed_rng};
use crate::events::{GameEvent, PowerUpKind};
use crate::levels;
use crate::levels::{
    level_rows, parse_level, BrickKind, BRICK_HEIGHT, BRICK_WIDTH, LEVEL_COUNT,
};
use crate::levelset;
use crate::levelset::{ExternalLevel, LevelView, GRID_WIDTH};

verus! {

/// Size of the playfield in pixels, whatever the window's size.
pub const PLAYFIELD_WIDTH: i64 = 800;

pub const PLAYFIELD_HEIGHT: i64 = 600;

pub const PADDLE_WIDTH: i64 = 100;

/// Width of the paddle while a widening lasts.
pub const WIDE_PADDLE_WIDTH: i64 = 150;

pub const PADDLE_HEIGHT: i64 = 16;

/// Gap between the paddle's bottom edge and the playfield's.
pub const PADDLE_MARGIN_BOTTOM: i64 = 30;

pub const BALL_RADIUS: i64 = 6;

pub const STARTING_LIVES: u32 = 3;

/// Gap between the playfield's top edge and the bricks.
pub const BRICK_GRID_MARGIN_TOP: i64 = 60;

/// Speed of the paddle in pixels per second.
pub const PADDLE_SPEED: i64 = 520;

/// Speed of a launched ball, and the most that any ball reaches, in pixels per
/// second.
pub const BALL_LAUNCH_SPEED: i64 = 300;

pub const BALL_SPEED_CAP: i64 = 700;

/// Speed of a ball after a hit of the paddle, in percent of that before.
pub const BALL_SPEED_GROWTH_PERCENT: i64 = 104;

/// Launch angle in degrees; 90 is straight up and 0 is to the right.
pub const BALL_LAUNCH_ANGLE_DEG: i64 = 60;

/// Range of the angle at which a ball leaves the paddle, and half the width of
/// the zone around straight up that it avoids.
pub const EXIT_ANGLE_MIN_DEG: i64 = 30;

pub const EXIT_ANGLE_MAX_DEG: i64 = 150;

pub const EXIT_ANGLE_DEAD_ZONE_HALF_DEG: i64 = 5;

/// Speed of a capsule in pixels per second.
pub const POWERUP_FALL_SPEED: i64 = 140;

/// How long a widening lasts.
pub const WIDEN_DURATION_SECS: i64 = 15;

/// Speed of a slowed ball, in percent of that before.
pub const SLOW_PERCENT: i64 = 70;

/// The angle between the main ball and each of the two that split off it.
pub const MULTIBALL_SPREAD_DEG: i64 = 20;

/// Three of twenty destroyed bricks drop a power-up.
pub const DROP_NUMERATOR: u32 = 3;

pub const DROP_DENOMINATOR: u32 = 20;

/// The keys held during a tick.
#[derive(Debug, Clone, Copy, PartialEq, Eq, Structural)]
pub struct Input {
    pub left: bool,
    pub right: bool,
    pub space: bool,
    pub pause: bool,
}

impl Default for Input {
    fn default() -> (input: Self)
        ensures
            input == (Input { left: false, right: false, space: false, pause: false }),
    {
        Input { left: false, right: false, space: false, pause: false }
    }
}

/// A key of the keyboard, by its position. `Other` stands for every key
/// without a meaning in the game.
#[derive(Debug, Clone, Copy, PartialEq, Eq, Structural)]
pub enum Key {
    ArrowLeft,
    ArrowRight,
    A,
    D,
    Space,
    P,
    Escape,
    Other,
}

impl Input {
    /// The held keys after a key went down or up.
    pub open spec fn with_key(self, key: Key, pressed: bool) -> Input {
        match key {
            Key::ArrowLeft | Key::A => Input { left: pressed, ..self },
            Key::ArrowRight | Key::D => Input { right: pressed, ..self },
            Key::Space => Input { space: pressed, ..self },
            Key::P | Key::Escape => Input { pause: pressed, ..self },
            Key::Other => self,
        }
    }

    /// The way the held keys push the paddle.
    pub open spec fn push(self) -> int {
        (if self.right {
            1int
        } else {
            0int
        }) - (if self.left {
            1int
        } else {
            0int
        })
    }

    /// Notes that a key went down or up. The paddle moves on the arrow keys
    /// and on A and D, Space launches, and P or Escape pauses.
    pub fn set_key(&mut self, key: Key, pressed: bool)
        ensures
            *final(self) == old(self).with_key(key, pressed),
    {
        match key {
            Key::ArrowLeft | Key::A => self.left = pressed,
            Key::ArrowRight | Key::D => self.right = pressed,
            Key::Space => self.space = pressed,
            Key::P | Key::Escape => self.pause = pressed,
            Key::Other => {},
        }
    }

    /// The way the held keys push the paddle: -1 is left and 1 is right, and
    /// opposite keys cancel out.
    pub fn direction(&self) -> (direction: i64)
        ensures
            direction == self.push(),
    {
        match (self.left, self.right) {
            (true, false) => -1,
            (false, true) => 1,
            _ => 0,
        }
    }
}

/// The states of the game: `Menu -> Playing <-> Paused`, and from `Playing` to
/// `GameOver` or `Victory`.
#[derive(Debug, Clone, Copy, PartialEq, Eq, Structural)]
pub enum GameState {
    Menu,
    Playing,
    Paused,
    GameOver,
    Victory,
}

impl Default for GameState {
    fn default() -> (state: Self)
        ensures
            state == GameState::Menu,
    {
        GameState::Menu
    }
}

/// The paddle; `x` and `y` are its center.
#[derive(Debug, Clone, Copy, PartialEq)]
pub struct Paddle<R> {
    pub x: R,
    pub y: R,
    pub width: R,
    pub height: R,
}

/// A ball. While it is attached it rides the paddle, and its velocity means
/// nothing.
#[derive(Debug, Clone, Copy, PartialEq)]
pub struct Ball<R> {
    pub x: R,
    pub y: R,
    pub vx: R,
    pub vy: R,
    pub radius: R,
    pub attached: bool,
}

/// How a ball rests on the paddle: the height of its center, the number zero
/// for its velocity, and its radius.
#[derive(Debug, Clone, Copy, PartialEq)]
pub struct Rest<R> {
    pub y: R,
    pub zero: R,
    pub radius: R,
}

/// A brick on the board; `x` and `y` are its center.
#[derive(Debug, Clone, Copy, PartialEq, Eq, Structural)]
pub struct Brick {
    pub x: i64,
    pub y: i64,
    pub width: i64,
    pub height: i64,
    pub kind: BrickKind,
    /// Hits left before it breaks. Never read of an indestructible brick.
    pub hits_remaining: u8,
    /// Points for breaking it.
    pub score: u32,
}

/// A falling capsule; `x` and `y` are its center.
#[derive(Debug, Clone, Copy, PartialEq)]
pub struct PowerUp<R> {
    pub x: R,
    pub y: R,
    pub kind: PowerUpKind,
}

/// The points of a brick in row `row`: 70 at the top, ten less per row, and
/// never below ten.
pub open spec fn row_points(row: int) -> int {
    if row < 6 {
        70 - 10 * row
    } else {
        10
    }
}

/// Points for breaking a brick of row `row`, counted from the top.
pub fn score_for_row(row: usize) -> (points: u32)
    ensures
        points == row_points(row as int),
{
    if row < 6 {
        70 - 10 * row as u32
    } else {
        10
    }
}

/// Hits that a fresh brick takes.
pub open spec fn fresh_hits(kind: BrickKind) -> u8 {
    match kind {
        BrickKind::Normal => 1,
        BrickKind::Armored => 2,
        BrickKind::Indestructible => 0,
    }
}

/// The grid row nearest to height `y`.
pub open spec fn nearest_row(y: int) -> int {
    if y <= 0 {
        0
    } else {
        (y + BRICK_HEIGHT / 2) / BRICK_HEIGHT as int
    }
}

/// The brick of a cell whose top-left corner is at `x`, `y` in a grid of
/// `columns` columns, which is centered in the playfield.
pub open spec fn brick_for(x: int, y: int, kind: BrickKind, columns: int) -> Brick {
    Brick {
        x: (x + (PLAYFIELD_WIDTH - columns * BRICK_WIDTH) / 2 + BRICK_WIDTH / 2) as i64,
        y: (y + BRICK_GRID_MARGIN_TOP + BRICK_HEIGHT / 2) as i64,
        width: BRICK_WIDTH,
        height: BRICK_HEIGHT,
        kind,
        hits_remaining: fresh_hits(kind),
        score: if kind == BrickKind::Indestructible {
            0
        } else {
            row_points(nearest_row(y)) as u32
        },
    }
}

/// Largest coordinate of a spawn that a board can hold.
pub const SPAWN_LIMIT: i64 = 0x3fff_ffff_ffff_ffff;

/// Places one spawn on the board.
fn place_brick(x: i64, y: i64, kind: BrickKind, columns: i64) -> (brick: Brick)
    requires
        -SPAWN_LIMIT <= x <= SPAWN_LIMIT,
        -SPAWN_LIMIT <= y <= SPAWN_LIMIT,
        0 <= columns <= levels::MAX_COLUMNS,
    ensures
        brick == brick_for(x as int, y as int, kind, columns as int),
{
    let hits_remaining: u8 = match kind {
        BrickKind::Normal => 1,
        BrickKind::Armored => 2,
        BrickKind::Indestructible => 0,
    };
    let row: i64 = if y <= 0 {
        0
    } else {
        (y + BRICK_HEIGHT / 2) / BRICK_HEIGHT
    };
    let score: u32 = match kind {
        BrickKind::Indestructible => 0,
        _ => if row < 6 {
            score_for_row(row as usize)
        } else {
            score_for_row(6)
        },
    };
    Brick {
        x: x + (PLAYFIELD_WIDTH - columns * BRICK_WIDTH) / 2 + BRICK_WIDTH / 2,
        y: y + BRICK_GRID_MARGIN_TOP + BRICK_HEIGHT / 2,
        width: BRICK_WIDTH,
        height: BRICK_HEIGHT,
        kind,
        hits_remaining,
        score,
    }
}

/// The board of built-in level `index`.
pub open spec fn built_in_board(index: int) -> Seq<Brick> {
    let text = levels::level_text(index);
    levels::level_spawns(text).map_values(
        |spawn: levels::BrickSpawn|
            brick_for(spawn.x as int, spawn.y as int, spawn.kind, text[0].len() as int),
    )
}

/// The boards of all built-in levels, in play order.
pub open spec fn built_in_campaign() -> Seq<Seq<Brick>> {
    Seq::new(LEVEL_COUNT as nat, |index: int| built_in_board(index))
}

/// The board of a level from a levelset.
pub open spec fn external_board(level: LevelView) -> Seq<Brick> {
    level.bricks.map_values(
        |spawn: levelset::ExternalBrickSpawn|
            brick_for(spawn.x as int, spawn.y as int, spawn.kind, GRID_WIDTH as int),
    )
}

/// Builds the board of built-in level `level_index`.
pub fn build_bricks(level_index: usize) -> (bricks: Vec<Brick>)
    requires
        level_index < LEVEL_COUNT,
    ensures
        bricks@ == built_in_board(level_index as int),
{
    let rows = level_rows(level_index);
    let ghost text = levels::level_text(level_index as int);
    proof {
        levels::law_built_in_levels_are_rectangles(level_index as int);
        levels::law_spawns_are_the_occupied_cells(text);
        assert(text[0] == rows@[0]@);
    }
    let columns: i64 = rows[0].unicode_len() as i64;
    let spawns = parse_level(rows.as_slice());
    let mut bricks: Vec<Brick> = Vec::new();
    let mut i: usize = 0;
    while i < spawns.len()
        invariant
            i <= spawns@.len(),
            text == levels::level_text(level_index as int),
            columns == text[0].len(),
            columns <= levels::MAX_COLUMNS,
            spawns@ == levels::level_spawns(text),
            forall|k: int|
                0 <= k < spawns@.len() ==> {
                    &&& 0 <= (#[trigger] spawns@[k]).x <= SPAWN_LIMIT
                    &&& 0 <= spawns@[k].y <= SPAWN_LIMIT
                },
            bricks@ == built_in_board(level_index as int).take(i as int),
        decreases spawns@.len() - i,
    {
        let spawn = spawns[i];
        bricks.push(place_brick(spawn.x, spawn.y, spawn.kind, columns));
        assert(bricks@ == built_in_board(level_index as int).take(i + 1));
        i = i + 1;
    }
    assert(built_in_board(level_index as int).take(i as int) == built_in_board(level_index as int));
    bricks
}

/// Everything the game keeps, advanced one tick at a time.
#[derive(Debug)]
pub struct Game<R> {
    /// What happened since the caller last drained the list.
    pub events: Vec<GameEvent>,
    pub paddle: Paddle<R>,
    /// The main ball: attached to the paddle, or in flight.
    pub ball: Ball<R>,
    /// The further balls in flight. When the main ball is lost one of these
    /// takes its place; a life is only spent when there is none.
    pub extra_balls: Vec<Ball<R>>,
    pub lives: u32,
    pub state: GameState,
    /// The bricks that still stand.
    pub bricks: Vec<Brick>,
    pub score: u32,
    /// Number of the current level, counted from one.
    pub level: usize,
    /// The capsules that are falling.
    pub powerups: Vec<PowerUp<R>>,
    /// Time left of a widening.
    pub widen_timer: R,
    /// Whether the pause key was down in the last tick.
    pub pause_was_held: bool,
    /// The board of every level, in play order.
    pub campaign: Vec<Vec<Brick>>,
    /// Decides which bricks drop a power-up.
    pub rng: StdRng,
}

/// The contents of a [`Game`], but for its random number generator.
#[verifier::ext_equal]
pub struct GameView<R> {
    pub events: Seq<GameEvent>,
    pub paddle: Paddle<R>,
    pub ball: Ball<R>,
    pub extra_balls: Seq<Ball<R>>,
    pub lives: u32,
    pub state: GameState,
    pub bricks: Seq<Brick>,
    pub score: u32,
    pub level: usize,
    pub powerups: Seq<PowerUp<R>>,
    pub widen_timer: R,
    pub pause_was_held: bool,
    pub campaign: Seq<Seq<Brick>>,
}

/// The bricks of each of a list of boards.
pub open spec fn boards(list: Seq<Vec<Brick>>) -> Seq<Seq<Brick>> {
    list.map_values(|board: Vec<Brick>| board@)
}

impl<R> View for Game<R> {
    type V = GameView<R>;

    open spec fn view(&self) -> GameView<R> {
        GameView {
            events: self.events@,
            paddle: self.paddle,
            ball: self.ball,
            extra_balls: self.extra_balls@,
            lives: self.lives,
            state: self.state,
            bricks: self.bricks@,
            score: self.score,
            level: self.level,
            powerups: self.powerups@,
            widen_timer: self.widen_timer,
            pause_was_held: self.pause_was_held,
            campaign: boards(self.campaign@),
        }
    }
}

/// How many bricks have to be broken to clear a board.
pub open spec fn destructible(bricks: Seq<Brick>) -> nat
    decreases bricks.len(),
{
    if bricks.len() == 0 {
        0
    } else {
        destructible(bricks.drop_last()) + if bricks.last().kind != BrickKind::Indestructible {
            1nat
        } else {
            0nat
        }
    }
}

/// What a hit does to a brick.
#[derive(Debug, Clone, Copy, PartialEq, Eq, Structural)]
pub enum Hit {
    /// The brick is indestructible.
    Bounced,
    /// The brick holds, with a hit less to go.
    Cracked,
    /// The brick is gone.
    Destroyed,
}

/// What a hit does to this brick.
pub open spec fn hit_on(brick: Brick) -> Hit {
    if brick.kind == BrickKind::Indestructible {
        Hit::Bounced
    } else if brick.hits_remaining > 1 {
        Hit::Cracked
    } else {
        Hit::Destroyed
    }
}

/// What the front end did at the start of a tick in play.
#[derive(Debug, Clone, Copy, PartialEq)]
pub struct Play<R> {
    /// Time left of a widening after this tick.
    pub widen_timer: R,
    /// Whether any time is left, so that the paddle is wide.
    pub widened: bool,
    /// Place of the paddle after it moved.
    pub paddle_x: R,
    /// Height of a ball that rests on that paddle.
    pub rest_y: R,
    /// Velocity of a launch.
    pub launch_vx: R,
    pub launch_vy: R,
}

/// The ball to move next.
#[derive(Debug, Clone, Copy, PartialEq, Eq, Structural)]
pub enum Mover {
    Main,
    /// The extra ball at this position.
    Extra(usize),
    /// None: the tick's flight is over.
    Done,
}

/// The progress of a tick's flight, which is cut into equal substeps. In each
/// the main ball moves first and then the extra balls in order.
#[derive(Debug, Clone, Copy, PartialEq, Eq, Structural)]
pub struct Turn {
    /// Substeps left, the current one counted.
    pub left: u32,
    /// Whether the main ball dropped out in the current substep.
    pub main_lost: bool,
    pub next: Mover,
}

/// How far one capsule fell.
#[derive(Debug, Clone, Copy, PartialEq)]
pub struct Fall<R> {
    /// Its new height.
    pub y: R,
    /// Whether the paddle is there.
    pub caught: bool,
    /// Whether it is below the bottom edge.
    pub below: bool,
}

/// The numbers behind the power-ups, worked out for the balls as they are.
#[derive(Debug, PartialEq)]
pub struct Effects<R> {
    /// The slowed velocities of the main ball and then of each extra ball.
    pub slowed: Vec<(R, R)>,
    /// The velocities of the two balls that split off the main ball.
    pub left: (R, R),
    pub right: (R, R),
}

/// The same ball with another velocity.
pub open spec fn with_velocity<R>(ball: Ball<R>, velocity: (R, R)) -> Ball<R> {
    Ball { vx: velocity.0, vy: velocity.1, ..ball }
}

/// A ball that rests on the paddle.
pub open spec fn parked<R>(paddle: Paddle<R>, rest: Rest<R>) -> Ball<R> {
    Ball {
        x: paddle.x,
        y: rest.y,
        vx: rest.zero,
        vy: rest.zero,
        radius: rest.radius,
        attached: true,
    }
}

impl<R> GameView<R> {
    /// Whether the pause key goes down in a tick with this input.
    pub open spec fn pause_pressed(self, input: Input) -> bool {
        input.pause && !self.pause_was_held
    }

    /// The state after the state machine saw this input.
    pub open spec fn next_state(self, input: Input) -> GameState {
        match self.state {
            GameState::Menu => if input.space {
                GameState::Playing
            } else {
                GameState::Menu
            },
            GameState::Paused => if self.pause_pressed(input) {
                GameState::Playing
            } else {
                GameState::Paused
            },
            GameState::Playing => if self.pause_pressed(input) {
                GameState::Paused
            } else {
                GameState::Playing
            },
            GameState::GameOver => GameState::GameOver,
            GameState::Victory => GameState::Victory,
        }
    }

    pub open spec fn after_tick(self, input: Input) -> GameView<R> {
        GameView { state: self.next_state(input), pause_was_held: input.pause, ..self }
    }

    /// Whether the board is in play during a tick with this input.
    pub open spec fn in_play(self, input: Input) -> bool {
        self.state == GameState::Playing && !self.pause_pressed(input)
    }

    /// After the paddle, now so wide, moved, and an attached ball rode it or was
    /// launched. The paddle's height above the bottom edge and its thickness
    /// never change.
    pub open spec fn after_play(self, input: Input, play: Play<R>, width: R) -> GameView<R> {
        let ball = if !self.ball.attached {
            self.ball
        } else if input.space {
            Ball {
                x: play.paddle_x,
                y: play.rest_y,
                vx: play.launch_vx,
                vy: play.launch_vy,
                attached: false,
                ..self.ball
            }
        } else {
            Ball { x: play.paddle_x, y: play.rest_y, ..self.ball }
        };
        GameView {
            widen_timer: play.widen_timer,
            paddle: Paddle { x: play.paddle_x, width, ..self.paddle },
            ball,
            ..self
        }
    }

    /// After a power-up of kind `kind`, if any, dropped at `x`, `y`.
    pub open spec fn after_drop(self, kind: Option<PowerUpKind>, x: R, y: R) -> GameView<R> {
        match kind {
            Some(kind) => GameView {
                powerups: self.powerups.push(PowerUp { x, y, kind }),
                events: self.events.push(GameEvent::PowerUpSpawned(kind)),
                ..self
            },
            None => self,
        }
    }

    /// After the brick at `index` was hit, without any power-up it drops.
    pub open spec fn after_hit(self, index: int) -> GameView<R> {
        let brick = self.bricks[index];
        match hit_on(brick) {
            Hit::Bounced => self,
            Hit::Cracked => GameView {
                bricks: self.bricks.update(
                    index,
                    Brick { hits_remaining: (brick.hits_remaining - 1) as u8, ..brick },
                ),
                ..self
            },
            Hit::Destroyed => GameView {
                bricks: self.bricks.remove(index),
                score: (self.score + brick.score) as u32,
                events: self.events.push(GameEvent::BrickDestroyed).push(
                    GameEvent::BrickDestroyedAt {
                        x: brick.x,
                        y: brick.y,
                        width: brick.width,
                        height: brick.height,
                        kind: brick.kind,
                    },
                ),
                ..self
            },
        }
    }

    /// Whether the points for a brick, if it is hit and breaks, fit the score.
    pub open spec fn score_fits(self, index: Option<int>) -> bool {
        match index {
            Some(index) => hit_on(self.bricks[index]) == Hit::Destroyed ==> self.score
                + self.bricks[index].score <= u32::MAX,
            None => true,
        }
    }

    /// After all destructible bricks are gone: the next level, or victory.
    pub open spec fn after_clearing(self, rest: Rest<R>) -> GameView<R> {
        let events = self.events.push(GameEvent::LevelCleared);
        if self.level >= self.campaign.len() {
            GameView {
                state: GameState::Victory,
                events: events.push(GameEvent::Victory),
                ..self
            }
        } else {
            GameView {
                events,
                level: (self.level + 1) as usize,
                bricks: self.campaign[self.level as int],
                ball: parked(self.paddle, rest),
                extra_balls: Seq::empty(),
                powerups: Seq::empty(),
                ..self
            }
        }
    }

    /// After the last ball dropped out.
    pub open spec fn after_losing_life(self, rest: Rest<R>) -> GameView<R> {
        let events = self.events.push(GameEvent::LifeLost);
        let lives: u32 = if self.lives == 0 {
            0
        } else {
            (self.lives - 1) as u32
        };
        GameView {
            lives,
            ball: parked(self.paddle, rest),
            extra_balls: Seq::empty(),
            powerups: Seq::empty(),
            state: if lives == 0 {
                GameState::GameOver
            } else {
                self.state
            },
            events: if lives == 0 {
                events.push(GameEvent::GameOver)
            } else {
                events
            },
            ..self
        }
    }

    /// After all balls of a substep moved. Clearing the board comes before any
    /// loss; a lost main ball is replaced by the last extra ball, and only if
    /// there is none does it cost a life.
    pub open spec fn after_substep(self, main_lost: bool, rest: Rest<R>) -> GameView<R> {
        if destructible(self.bricks) == 0 {
            self.after_clearing(rest)
        } else if main_lost {
            let lost = GameView { events: self.events.push(GameEvent::BallLost), ..self };
            if self.extra_balls.len() > 0 {
                GameView {
                    ball: self.extra_balls.last(),
                    extra_balls: self.extra_balls.drop_last(),
                    ..lost
                }
            } else {
                lost.after_losing_life(rest)
            }
        } else {
            self
        }
    }

    /// After one ball moved to where `ball` is, or dropped out.
    pub open spec fn after_move(self, mover: Mover, ball: Ball<R>, lost: bool) -> GameView<R> {
        match mover {
            Mover::Main => GameView { ball, ..self },
            Mover::Extra(index) => if lost {
                GameView {
                    extra_balls: self.extra_balls.remove(index as int),
                    events: self.events.push(GameEvent::BallLost),
                    ..self
                }
            } else {
                GameView { extra_balls: self.extra_balls.update(index as int, ball), ..self }
            },
            Mover::Done => self,
        }
    }

    /// Whether a turn is under way and names a ball that this game has.
    pub open spec fn turn_fits(self, turn: Turn) -> bool {
        match turn.next {
            Mover::Main => turn.left > 0,
            Mover::Extra(index) => turn.left > 0 && index < self.extra_balls.len(),
            Mover::Done => false,
        }
    }

    /// After a ball of a turn was settled.
    pub open spec fn after_settling(
        self,
        turn: Turn,
        ball: Ball<R>,
        lost: bool,
        rest: Rest<R>,
    ) -> GameView<R> {
        let moved = self.after_move(turn.next, ball, lost);
        if next_extra(turn.next, lost) < moved.extra_balls.len() {
            moved
        } else {
            moved.after_substep(main_lost_now(turn, lost), rest)
        }
    }

    /// The turn after a ball of it was settled.
    pub open spec fn next_turn(
        self,
        turn: Turn,
        ball: Ball<R>,
        lost: bool,
        rest: Rest<R>,
    ) -> Turn {
        let moved = self.after_move(turn.next, ball, lost);
        let main_lost = main_lost_now(turn, lost);
        let index = next_extra(turn.next, lost);
        if index < moved.extra_balls.len() {
            Turn { left: turn.left, main_lost, next: Mover::Extra(index as usize) }
        } else {
            let after = moved.after_substep(main_lost, rest);
            if turn.left <= 1 || after.state != GameState::Playing || after.ball.attached {
                Turn { left: 0, main_lost: false, next: Mover::Done }
            } else {
                Turn { left: (turn.left - 1) as u32, main_lost: false, next: Mover::Main }
            }
        }
    }

    /// After every capsule fell. A caught one and one below the bottom edge
    /// are gone, and each catch is reported.
    pub open spec fn after_falls(self, falls: Seq<Fall<R>>) -> GameView<R> {
        GameView {
            powerups: still_falling(self.powerups, falls),
            events: self.events + caught_kinds(self.powerups, falls).map_values(
                |kind: PowerUpKind| GameEvent::PowerUpCaught(kind),
            ),
            ..self
        }
    }

    /// After levels were loaded in place of those of the campaign; without any
    /// level nothing changes.
    pub open spec fn after_loading(self, levels: Seq<LevelView>) -> GameView<R> {
        if levels.len() == 0 {
            self
        } else {
            GameView {
                campaign: external_campaign(levels),
                bricks: external_board(levels[0]),
                level: 1,
                ..self
            }
        }
    }

    /// After the effect of a caught power-up. A widening starts over with its
    /// full time, whatever was left of an earlier one.
    pub open spec fn after_powerup(
        self,
        kind: PowerUpKind,
        effects: Effects<R>,
        full_time: R,
    ) -> GameView<R> {
        match kind {
            PowerUpKind::Widen => GameView { widen_timer: full_time, ..self },
            PowerUpKind::Slow => GameView {
                ball: with_velocity(self.ball, effects.slowed@[0]),
                extra_balls: Seq::new(
                    self.extra_balls.len(),
                    |i: int| with_velocity(self.extra_balls[i], effects.slowed@[i + 1]),
                ),
                ..self
            },
            PowerUpKind::Multiball => GameView {
                extra_balls: self.extra_balls.push(with_velocity(self.ball, effects.left)).push(
                    with_velocity(self.ball, effects.right),
                ),
                ..self
            },
        }
    }
}

/// The turn that a flight of so many substeps starts with.
pub open spec fn first_turn(substeps: u32) -> Turn {
    Turn {
        left: substeps,
        main_lost: false,
        next: if substeps == 0 {
            Mover::Done
        } else {
            Mover::Main
        },
    }
}

/// Position of the extra ball that comes after a mover. Removing a lost ball
/// moves the next one to its place.
pub open spec fn next_extra(mover: Mover, lost: bool) -> int {
    match mover {
        Mover::Main => 0,
        Mover::Extra(index) => if lost {
            index as int
        } else {
            index + 1
        },
        Mover::Done => 0,
    }
}

/// Whether the main ball has dropped out once this mover is settled.
pub open spec fn main_lost_now(turn: Turn, lost: bool) -> bool {
    if turn.next == Mover::Main {
        lost
    } else {
        turn.main_lost
    }
}

/// The capsules that go on falling, at their new heights.
pub open spec fn still_falling<R>(powerups: Seq<PowerUp<R>>, falls: Seq<Fall<R>>) -> Seq<PowerUp<R>>
    decreases falls.len(),
{
    if falls.len() == 0 {
        Seq::empty()
    } else {
        let before = still_falling(powerups, falls.drop_last());
        let fall = falls.last();
        if fall.caught || fall.below {
            before
        } else {
            before.push(PowerUp { y: fall.y, ..powerups[falls.len() - 1] })
        }
    }
}

/// The kinds of the caught capsules, in order.
pub open spec fn caught_kinds<R>(powerups: Seq<PowerUp<R>>, falls: Seq<Fall<R>>) -> Seq<
    PowerUpKind,
>
    decreases falls.len(),
{
    if falls.len() == 0 {
        Seq::empty()
    } else {
        let before = caught_kinds(powerups, falls.drop_last());
        if falls.last().caught {
            before.push(powerups[falls.len() - 1].kind)
        } else {
            before
        }
    }
}

/// The smallest position that is marked, if any is.
pub open spec fn first_marked(marks: Seq<bool>) -> Option<int>
    decreases marks.len(),
{
    if marks.len() == 0 {
        None
    } else {
        match first_marked(marks.drop_last()) {
            Some(index) => Some(index),
            None => if marks.last() {
                Some(marks.len() - 1)
            } else {
                None
            },
        }
    }
}

/// Finds the first mark.
pub(crate) fn find_first(marks: &Vec<bool>) -> (index: Option<usize>)
    ensures
        first_marked(marks@) == (match index {
            Some(i) => Some(i as int),
            None => None,
        }),
        index matches Some(i) ==> i < marks@.len(),
{
    let mut i: usize = 0;
    while i < marks.len()
        invariant
            i <= marks@.len(),
            first_marked(marks@.take(i as int)) is None,
        decreases marks@.len() - i,
    {
        assert(marks@.take(i + 1).drop_last() == marks@.take(i as int));
        if marks[i] {
            proof {
                lemma_first_marked_stays(marks@, i + 1);
            }
            return Some(i);
        }
        i = i + 1;
    }
    assert(marks@.take(i as int) == marks@);
    None
}

/// A mark that is first among some of the marks is first among all.
proof fn lemma_first_marked_stays(marks: Seq<bool>, count: int)
    requires
        0 <= count <= marks.len(),
        first_marked(marks.take(count)) is Some,
    ensures
        first_marked(marks) == first_marked(marks.take(count)),
    decreases marks.len(),
{
    if count == marks.len() {
        assert(marks.take(count) == marks);
    } else {
        assert(marks.drop_last().take(count) == marks.take(count));
        lemma_first_marked_stays(marks.drop_last(), count);
    }
}

/// Whether `x` is what `convert` makes of the whole number `n`.
pub open spec fn stands_for<R, F: Fn(i64) -> R>(convert: F, n: int, x: R) -> bool {
    call_ensures(convert, (n as i64,), x)
}

/// The power-up for a roll of a three-sided die.
pub open spec fn rolled_powerup(roll: u32) -> PowerUpKind {
    match roll {
        0 => PowerUpKind::Widen,
        1 => PowerUpKind::Slow,
        _ => PowerUpKind::Multiball,
    }
}

/// What a broken brick drops, as the generator has it, and the generator after
/// it: with a chance of three in twenty one of the three power-ups.
pub open spec fn chance_drop(rng: StdRng) -> (Option<PowerUpKind>, StdRng) {
    let (hit, next) = chance::drawn_ratio(rng, DROP_NUMERATOR, DROP_DENOMINATOR);
    if hit {
        let (roll, last) = chance::drawn_below(next, 3);
        (Some(rolled_powerup(roll)), last)
    } else {
        (None, next)
    }
}

/// Whether a game came from another by a ball that touched some of its bricks
/// and struck the first of them.
pub open spec fn collided<R, F: Fn(i64) -> R>(
    before: Game<R>,
    touched: Seq<bool>,
    convert: F,
    after: Game<R>,
    struck: Option<Brick>,
) -> bool {
    match first_marked(touched) {
        None => after == before && struck is None,
        Some(index) => {
            &&& struck == Some(before.bricks@[index])
            &&& if hit_on(before.bricks@[index]) != Hit::Destroyed {
                &&& after@ == before@.after_hit(index)
                &&& after.rng == before.rng
            } else {
                &&& exists|x: R, y: R|
                    {
                        &&& after@ == #[trigger] before@.after_hit(index).after_drop(
                            chance_drop(before.rng).0,
                            x,
                            y,
                        )
                        &&& stands_for(convert, before.bricks@[index].x as int, x)
                        &&& stands_for(convert, before.bricks@[index].y as int, y)
                    }
                &&& after.rng == chance_drop(before.rng).1
            }
        },
    }
}

/// The power-up that a roll stands for.
pub fn powerup_for(roll: u32) -> (kind: PowerUpKind)
    ensures
        kind == rolled_powerup(roll),
{
    match roll {
        0 => PowerUpKind::Widen,
        1 => PowerUpKind::Slow,
        _ => PowerUpKind::Multiball,
    }
}

/// Whether a ball rests at height `y`, without speed and with the radius of
/// every ball.
pub open spec fn rests_at<R, F: Fn(i64) -> R>(rest: Rest<R>, y: R, convert: F) -> bool {
    &&& rest.y == y
    &&& stands_for(convert, 0, rest.zero)
    &&& stands_for(convert, BALL_RADIUS as int, rest.radius)
}

impl<R> Rest<R> {
    /// How a ball rests with its center at height `y`.
    pub fn at<F: Fn(i64) -> R>(y: R, convert: F) -> (rest: Rest<R>)
        requires
            forall|n: i64| call_requires(convert, (n,)),
        ensures
            rests_at(rest, y, convert),
    {
        Rest { y, zero: convert(0), radius: convert(BALL_RADIUS) }
    }
}

impl<R: Copy> Ball<R> {
    /// A ball that rests centered on the paddle.
    pub fn attached_to(paddle: &Paddle<R>, rest: &Rest<R>) -> (ball: Ball<R>)
        ensures
            ball == parked(*paddle, *rest),
    {
        Ball {
            x: paddle.x,
            y: rest.y,
            vx: rest.zero,
            vy: rest.zero,
            radius: rest.radius,
            attached: true,
        }
    }
}

impl Turn {
    /// The start of a flight of so many substeps.
    pub fn begin(substeps: u32) -> (turn: Turn)
        ensures
            turn == first_turn(substeps),
    {
        let next = if substeps == 0 {
            Mover::Done
        } else {
            Mover::Main
        };
        Turn { left: substeps, main_lost: false, next }
    }
}

/// The width of the paddle: half as wide again while a widening lasts.
pub open spec fn width_of_paddle(widened: bool) -> int {
    if widened {
        PADDLE_WIDTH * 3 / 2
    } else {
        PADDLE_WIDTH as int
    }
}

/// The width of the paddle in pixels.
pub fn paddle_width(widened: bool) -> (width: i64)
    ensures
        width == width_of_paddle(widened),
{
    if widened {
        WIDE_PADDLE_WIDTH
    } else {
        PADDLE_WIDTH
    }
}

impl<R: Copy> Game<R> {
    /// Runs the state machine for one tick and says whether the board is in
    /// play during it. A held pause key counts once, when it goes down.
    pub fn tick(&mut self, input: &Input) -> (playing: bool)
        ensures
            final(self)@ == old(self)@.after_tick(*input),
            final(self).rng == old(self).rng,
            playing == old(self)@.in_play(*input),
    {
        let pause_pressed = input.pause && !self.pause_was_held;
        self.pause_was_held = input.pause;
        match self.state {
            GameState::Menu => {
                if input.space {
                    self.state = GameState::Playing;
                }
                false
            },
            GameState::Paused => {
                if pause_pressed {
                    self.state = GameState::Playing;
                }
                false
            },
            GameState::GameOver | GameState::Victory => false,
            GameState::Playing => {
                if pause_pressed {
                    self.state = GameState::Paused;
                }
                !pause_pressed
            },
        }
    }

    /// Starts a tick in play: sizes the paddle, takes its new place, and lets an attached
    /// ball ride it or launches it. Says whether the balls fly in this tick,
    /// which they do unless the main ball was attached.
    pub fn tick_playing<F: Fn(i64) -> R>(
        &mut self,
        input: &Input,
        play: &Play<R>,
        convert: F,
    ) -> (flying: bool)
        requires
            forall|n: i64| call_requires(convert, (n,)),
        ensures
            exists|width: R|
                {
                    &&& final(self)@ == #[trigger] old(self)@.after_play(*input, *play, width)
                    &&& stands_for(convert, width_of_paddle(play.widened), width)
                },
            !old(self).ball.attached ==> final(self).ball == old(self).ball,
            final(self).paddle.y == old(self).paddle.y,
            final(self).paddle.height == old(self).paddle.height,
            final(self).rng == old(self).rng,
            flying == !old(self).ball.attached,
    {
        self.widen_timer = play.widen_timer;
        self.paddle.x = play.paddle_x;
        self.paddle.width = convert(paddle_width(play.widened));
        let ghost width = self.paddle.width;
        if !self.ball.attached {
            assert(self@ == old(self)@.after_play(*input, *play, width));
            return true;
        }
        self.ball.x = play.paddle_x;
        self.ball.y = play.rest_y;
        if input.space {
            self.launch_ball(play);
        }
        assert(self@ == old(self)@.after_play(*input, *play, width));
        false
    }

    /// Lets go of the main ball.
    fn launch_ball(&mut self, play: &Play<R>)
        ensures
            *final(self) == (Game {
                ball: Ball {
                    vx: play.launch_vx,
                    vy: play.launch_vy,
                    attached: false,
                    ..old(self).ball
                },
                ..*old(self)
            }),
    {
        self.ball.attached = false;
        self.ball.vx = play.launch_vx;
        self.ball.vy = play.launch_vy;
    }

    /// How many bricks have to be broken to clear the board.
    pub fn destructible_bricks_remaining(&self) -> (count: usize)
        ensures
            count == destructible(self.bricks@),
    {
        let mut count: usize = 0;
        let mut i: usize = 0;
        while i < self.bricks.len()
            invariant
                i <= self.bricks@.len(),
                count <= i,
                count == destructible(self.bricks@.take(i as int)),
            decreases self.bricks@.len() - i,
        {
            assert(self.bricks@.take(i + 1).drop_last() == self.bricks@.take(i as int));
            if self.bricks[i].kind != BrickKind::Indestructible {
                count = count + 1;
            }
            i = i + 1;
        }
        assert(self.bricks@.take(i as int) == self.bricks@);
        count
    }

    /// Loads the next level, or declares victory after the last.
    fn advance_level(&mut self, rest: &Rest<R>)
        ensures
            final(self)@ == old(self)@.after_clearing(*rest),
            final(self).rng == old(self).rng,
    {
        self.events.push(GameEvent::LevelCleared);
        if self.level >= self.campaign.len() {
            self.state = GameState::Victory;
            self.events.push(GameEvent::Victory);
            return;
        }
        self.bricks = self.campaign[self.level].clone();
        assert(self.bricks@ == self.campaign@[self.level as int]@);
        self.level = self.level + 1;
        self.ball = Ball::attached_to(&self.paddle, rest);
        self.extra_balls = Vec::new();
        self.powerups = Vec::new();
    }

    /// Spends a life, and ends the game with the last.
    fn lose_life(&mut self, rest: &Rest<R>)
        ensures
            final(self)@ == old(self)@.after_losing_life(*rest),
            final(self).rng == old(self).rng,
    {
        self.events.push(GameEvent::LifeLost);
        self.lives = self.lives.saturating_sub(1);
        self.ball = Ball::attached_to(&self.paddle, rest);
        self.extra_balls = Vec::new();
        self.powerups = Vec::new();
        if self.lives == 0 {
            self.state = GameState::GameOver;
            self.events.push(GameEvent::GameOver);
        }
    }
}

impl<R: Copy> Game<R> {
    /// Takes where the next ball of a turn ended up, and says which moves
    /// after it. Once all balls of a substep moved, a cleared board or a lost
    /// ball is dealt with. The flight ends early when a ball is put back on
    /// the paddle or the game is over.
    pub fn settle_ball(&mut self, turn: Turn, ball: Ball<R>, lost: bool, rest: &Rest<R>) -> (next:
        Turn)
        requires
            old(self)@.turn_fits(turn),
        ensures
            final(self)@ == old(self)@.after_settling(turn, ball, lost, *rest),
            final(self).rng == old(self).rng,
            next == old(self)@.next_turn(turn, ball, lost, *rest),
    {
        let count: usize = self.extra_balls.len();
        let mut main_lost = turn.main_lost;
        let index: usize = match turn.next {
            Mover::Main => {
                self.ball = ball;
                main_lost = lost;
                0
            },
            Mover::Extra(index) => if lost {
                self.extra_balls.remove(index);
                self.events.push(GameEvent::BallLost);
                index
            } else {
                self.extra_balls.set(index, ball);
                assert(index < count);
                index + 1
            },
            Mover::Done => 0,
        };
        assert(self@ == old(self)@.after_move(turn.next, ball, lost));
        if index < self.extra_balls.len() {
            return Turn { left: turn.left, main_lost, next: Mover::Extra(index) };
        }
        self.finish_substep(main_lost, rest);
        if turn.left <= 1 || self.state != GameState::Playing || self.ball.attached {
            Turn { left: 0, main_lost: false, next: Mover::Done }
        } else {
            Turn { left: turn.left - 1, main_lost: false, next: Mover::Main }
        }
    }

    /// Deals with a cleared board or a lost main ball.
    fn finish_substep(&mut self, main_lost: bool, rest: &Rest<R>)
        ensures
            final(self)@ == old(self)@.after_substep(main_lost, *rest),
            final(self).rng == old(self).rng,
    {
        if self.destructible_bricks_remaining() == 0 {
            self.advance_level(rest);
        } else if main_lost {
            self.events.push(GameEvent::BallLost);
            match self.extra_balls.pop() {
                Some(promoted) => self.ball = promoted,
                None => self.lose_life(rest),
            }
        }
    }

    /// Drops a power-up, if there is one.
    pub fn drop_powerup(&mut self, kind: Option<PowerUpKind>, x: R, y: R)
        ensures
            final(self)@ == old(self)@.after_drop(kind, x, y),
            final(self).rng == old(self).rng,
    {
        if let Some(kind) = kind {
            self.powerups.push(PowerUp { x, y, kind });
            self.events.push(GameEvent::PowerUpSpawned(kind));
        }
    }

    /// Drops one of the three power-ups with a chance of three in twenty.
    pub fn maybe_drop_powerup(&mut self, x: R, y: R)
        ensures
            final(self)@ == old(self)@.after_drop(chance_drop(old(self).rng).0, x, y),
            final(self).rng == chance_drop(old(self).rng).1,
    {
        let kind = if draw_ratio(&mut self.rng, DROP_NUMERATOR, DROP_DENOMINATOR) {
            let roll: u32 = draw_below(&mut self.rng, 3);
            Some(powerup_for(roll))
        } else {
            None
        };
        assert(self@ == old(self)@);
        self.drop_powerup(kind, x, y);
    }

    /// Whether the score has room for the points of the brick that a ball hits
    /// when it touches these, should that brick break.
    pub fn has_room_for_points(&self, touched: &Vec<bool>) -> (fits: bool)
        requires
            touched@.len() == self.bricks@.len(),
        ensures
            fits == self@.score_fits(first_marked(touched@)),
    {
        match find_first(touched) {
            Some(index) => {
                let brick = self.bricks[index];
                brick.kind == BrickKind::Indestructible || brick.hits_remaining > 1 || brick.score
                    <= u32::MAX - self.score
            },
            None => true,
        }
    }

    /// Takes which of the bricks a ball touches and lets it hit the first of
    /// them. An indestructible brick only bounces the ball, an armored one
    /// cracks at first, and a brick on its last hit breaks: it scores, is
    /// reported twice, with and without its place, and may drop a power-up.
    /// Returns the brick as it was before the hit, for the ball to bounce off.
    pub fn resolve_brick_collisions<F: Fn(i64) -> R>(
        &mut self,
        touched: &Vec<bool>,
        convert: F,
    ) -> (struck: Option<Brick>)
        requires
            touched@.len() == old(self).bricks@.len(),
            old(self)@.score_fits(first_marked(touched@)),
            forall|n: i64| call_requires(convert, (n,)),
        ensures
            collided(*old(self), touched@, convert, *final(self), struck),
    {
        let index = match find_first(touched) {
            Some(index) => index,
            None => return None,
        };
        let brick = self.bricks[index];
        if brick.kind == BrickKind::Indestructible {
            return Some(brick);
        }
        let hits_remaining: u8 = brick.hits_remaining.saturating_sub(1);
        if hits_remaining > 0 {
            self.bricks.set(index, Brick { hits_remaining, ..brick });
            return Some(brick);
        }
        self.bricks.remove(index);
        self.score = self.score + brick.score;
        self.events.push(GameEvent::BrickDestroyed);
        self.events.push(
            GameEvent::BrickDestroyedAt {
                x: brick.x,
                y: brick.y,
                width: brick.width,
                height: brick.height,
                kind: brick.kind,
            },
        );
        assert(self@ == old(self)@.after_hit(index as int));
        self.maybe_drop_powerup(convert(brick.x), convert(brick.y));
        Some(brick)
    }

    /// Takes how far each capsule fell, removes those that were caught or are
    /// below the bottom edge, and returns the kinds of the caught ones.
    pub fn update_powerups(&mut self, falls: &Vec<Fall<R>>) -> (caught: Vec<PowerUpKind>)
        requires
            falls@.len() == old(self).powerups@.len(),
        ensures
            final(self)@ == old(self)@.after_falls(falls@),
            final(self).rng == old(self).rng,
            caught@ == caught_kinds(old(self).powerups@, falls@),
    {
        let mut falling: Vec<PowerUp<R>> = Vec::new();
        let mut caught: Vec<PowerUpKind> = Vec::new();
        let ghost powerups = self.powerups@;
        let ghost before = self@;
        let mut i: usize = 0;
        while i < falls.len()
            invariant
                i <= falls@.len(),
                falls@.len() == powerups.len(),
                powerups == self.powerups@,
                self.rng == old(self).rng,
                self@ == (GameView {
                    events: before.events + caught@.map_values(
                        |kind: PowerUpKind| GameEvent::PowerUpCaught(kind),
                    ),
                    ..before
                }),
                falling@ == still_falling(powerups, falls@.take(i as int)),
                caught@ == caught_kinds(powerups, falls@.take(i as int)),
            decreases falls@.len() - i,
        {
            let fall = falls[i];
            let powerup = self.powerups[i];
            let ghost caught_before = caught@;
            assert(falls@.take(i + 1).drop_last() == falls@.take(i as int));
            if fall.caught {
                caught.push(powerup.kind);
                self.events.push(GameEvent::PowerUpCaught(powerup.kind));
                assert(caught@.map_values(|kind: PowerUpKind| GameEvent::PowerUpCaught(kind))
                    == caught_before.map_values(
                    |kind: PowerUpKind| GameEvent::PowerUpCaught(kind),
                ).push(GameEvent::PowerUpCaught(powerup.kind)));
            } else if !fall.below {
                falling.push(PowerUp { x: powerup.x, y: fall.y, kind: powerup.kind });
            }
            i = i + 1;
        }
        assert(falls@.take(i as int) == falls@);
        self.powerups = falling;
        caught
    }

    /// Applies a caught power-up.
    pub fn apply_powerup<F: Fn(i64) -> R>(
        &mut self,
        kind: PowerUpKind,
        effects: &Effects<R>,
        convert: F,
    )
        requires
            forall|n: i64| call_requires(convert, (n,)),
            effects.slowed@.len() == old(self).extra_balls@.len() + 1,
        ensures
            exists|full_time: R|
                {
                    &&& final(self)@ == #[trigger] old(self)@.after_powerup(
                        kind,
                        *effects,
                        full_time,
                    )
                    &&& stands_for(convert, WIDEN_DURATION_SECS as int, full_time)
                },
            final(self).rng == old(self).rng,
    {
        let full_time = convert(WIDEN_DURATION_SECS);
        match kind {
            PowerUpKind::Widen => self.widen_timer = full_time,
            PowerUpKind::Slow => self.slow_balls(&effects.slowed),
            PowerUpKind::Multiball => {
                let source = self.ball;
                self.extra_balls.push(
                    Ball { vx: effects.left.0, vy: effects.left.1, ..source },
                );
                self.extra_balls.push(
                    Ball { vx: effects.right.0, vy: effects.right.1, ..source },
                );
            },
        }
        assert(self@ == old(self)@.after_powerup(kind, *effects, full_time));
    }

    /// Gives every ball its slowed velocity.
    fn slow_balls(&mut self, slowed: &Vec<(R, R)>)
        requires
            slowed@.len() == old(self).extra_balls@.len() + 1,
        ensures
            final(self)@ == (GameView {
                ball: with_velocity(old(self).ball, slowed@[0]),
                extra_balls: Seq::new(
                    old(self).extra_balls@.len(),
                    |i: int| with_velocity(old(self).extra_balls@[i], slowed@[i + 1]),
                ),
                ..old(self)@
            }),
            final(self).rng == old(self).rng,
    {
        self.ball.vx = slowed[0].0;
        self.ball.vy = slowed[0].1;
        let ghost balls = self.extra_balls@;
        let ghost before = self@;
        let mut i: usize = 0;
        while i < self.extra_balls.len()
            invariant
                i <= self.extra_balls@.len(),
                self.extra_balls@.len() == balls.len(),
                slowed@.len() == balls.len() + 1,
                self.rng == old(self).rng,
                self@ == (GameView { extra_balls: self.extra_balls@, ..before }),
                forall|k: int|
                    0 <= k < i ==> (#[trigger] self.extra_balls@[k]) == with_velocity(
                        balls[k],
                        slowed@[k + 1],
                    ),
                forall|k: int| i <= k < balls.len() ==> (#[trigger] self.extra_balls@[k]) == balls[k],
            decreases balls.len() - i,
        {
            let ball = self.extra_balls[i];
            let velocity = slowed[i + 1];
            self.extra_balls.set(i, Ball { vx: velocity.0, vy: velocity.1, ..ball });
            i = i + 1;
        }
    }
}

/// Whether a game is at its start: in the menu, on the first built-in level,
/// with three lives, nothing scored, the paddle in the middle and the ball
/// on it.
pub open spec fn at_start<R, F: Fn(i64) -> R>(game: GameView<R>, convert: F) -> bool {
    &&& game.state == GameState::Menu
    &&& game.level == 1
    &&& game.lives == STARTING_LIVES
    &&& game.score == 0
    &&& game.campaign == built_in_campaign()
    &&& game.bricks == built_in_board(0)
    &&& game.events == Seq::<GameEvent>::empty()
    &&& game.extra_balls == Seq::<Ball<R>>::empty()
    &&& game.powerups == Seq::<PowerUp<R>>::empty()
    &&& !game.pause_was_held
    &&& stands_for(convert, 0, game.widen_timer)
    &&& stands_for(convert, PLAYFIELD_WIDTH / 2, game.paddle.x)
    &&& stands_for(
        convert,
        PLAYFIELD_HEIGHT - PADDLE_MARGIN_BOTTOM - PADDLE_HEIGHT / 2,
        game.paddle.y,
    )
    &&& stands_for(convert, PADDLE_WIDTH as int, game.paddle.width)
    &&& stands_for(convert, PADDLE_HEIGHT as int, game.paddle.height)
    &&& game.ball.attached
    &&& game.ball.x == game.paddle.x
    &&& stands_for(
        convert,
        PLAYFIELD_HEIGHT - PADDLE_MARGIN_BOTTOM - PADDLE_HEIGHT - BALL_RADIUS,
        game.ball.y,
    )
    &&& stands_for(convert, 0, game.ball.vx)
    &&& game.ball.vy == game.ball.vx
    &&& stands_for(convert, BALL_RADIUS as int, game.ball.radius)
}

/// Whether every brick of every level lies where a board can hold it.
pub open spec fn levels_fit(levels: Seq<LevelView>) -> bool {
    forall|i: int, k: int|
        0 <= i < levels.len() && 0 <= k < levels[i].bricks.len() ==> {
            &&& -SPAWN_LIMIT <= (#[trigger] levels[i].bricks[k]).x <= SPAWN_LIMIT
            &&& -SPAWN_LIMIT <= levels[i].bricks[k].y <= SPAWN_LIMIT
        }
}

/// The boards of the levels of a levelset.
pub open spec fn external_campaign(levels: Seq<LevelView>) -> Seq<Seq<Brick>> {
    levels.map_values(|level: LevelView| external_board(level))
}

/// Builds the board of a level from a levelset.
fn build_external(level: &ExternalLevel) -> (board: Vec<Brick>)
    requires
        forall|k: int|
            0 <= k < level@.bricks.len() ==> {
                &&& -SPAWN_LIMIT <= (#[trigger] level@.bricks[k]).x <= SPAWN_LIMIT
                &&& -SPAWN_LIMIT <= level@.bricks[k].y <= SPAWN_LIMIT
            },
    ensures
        board@ == external_board(level@),
{
    let mut board: Vec<Brick> = Vec::new();
    let mut i: usize = 0;
    while i < level.bricks.len()
        invariant
            i <= level.bricks@.len(),
            forall|k: int|
                0 <= k < level@.bricks.len() ==> {
                    &&& -SPAWN_LIMIT <= (#[trigger] level@.bricks[k]).x <= SPAWN_LIMIT
                    &&& -SPAWN_LIMIT <= level@.bricks[k].y <= SPAWN_LIMIT
                },
            board@ == external_board(level@).take(i as int),
        decreases level.bricks@.len() - i,
    {
        let spawn = level.bricks[i];
        assert(level@.bricks[i as int] == spawn);
        board.push(place_brick(spawn.x, spawn.y, spawn.kind, GRID_WIDTH as i64));
        assert(board@ == external_board(level@).take(i + 1));
        i = i + 1;
    }
    assert(external_board(level@).take(i as int) == external_board(level@));
    board
}

/// Builds the boards of all built-in levels.
fn build_campaign() -> (campaign: Vec<Vec<Brick>>)
    ensures
        boards(campaign@) == built_in_campaign(),
{
    let mut campaign: Vec<Vec<Brick>> = Vec::new();
    let mut i: usize = 0;
    while i < LEVEL_COUNT
        invariant
            i <= LEVEL_COUNT,
            boards(campaign@) == built_in_campaign().take(i as int),
        decreases LEVEL_COUNT - i,
    {
        let ghost before = campaign@;
        let board = build_bricks(i);
        campaign.push(board);
        assert(boards(campaign@) == boards(before).push(board@));
        assert(boards(campaign@) == built_in_campaign().take(i + 1));
        i = i + 1;
    }
    assert(built_in_campaign().take(i as int) == built_in_campaign());
    campaign
}

impl<R: Copy> Game<R> {
    /// A game at its start, with chance seeded afresh. `convert` turns a whole
    /// number into a coordinate.
    pub fn new<F: Fn(i64) -> R>(convert: F) -> (game: Game<R>)
        requires
            forall|n: i64| call_requires(convert, (n,)),
        ensures
            at_start(game@, convert),
    {
        Game::start(convert, fresh_rng())
    }

    /// A game at its start whose chance is a function of the seed.
    pub fn with_seed<F: Fn(i64) -> R>(seed: u64, convert: F) -> (game: Game<R>)
        requires
            forall|n: i64| call_requires(convert, (n,)),
        ensures
            at_start(game@, convert),
            game.rng == chance::seeded(seed),
    {
        Game::start(convert, seed_rng(seed))
    }

    /// A game at its start with the given generator.
    fn start<F: Fn(i64) -> R>(convert: F, rng: StdRng) -> (game: Game<R>)
        requires
            forall|n: i64| call_requires(convert, (n,)),
        ensures
            at_start(game@, convert),
            game.rng == rng,
    {
        let paddle = Paddle {
            x: convert(PLAYFIELD_WIDTH / 2),
            y: convert(PLAYFIELD_HEIGHT - PADDLE_MARGIN_BOTTOM - PADDLE_HEIGHT / 2),
            width: convert(PADDLE_WIDTH),
            height: convert(PADDLE_HEIGHT),
        };
        let rest_y = convert(PLAYFIELD_HEIGHT - PADDLE_MARGIN_BOTTOM - PADDLE_HEIGHT - BALL_RADIUS);
        let rest = Rest::at(rest_y, &convert);
        let game = Game {
            events: Vec::new(),
            paddle,
            ball: Ball::attached_to(&paddle, &rest),
            extra_balls: Vec::new(),
            lives: STARTING_LIVES,
            state: GameState::Menu,
            bricks: build_bricks(0),
            score: 0,
            level: 1,
            powerups: Vec::new(),
            widen_timer: rest.zero,
            pause_was_held: false,
            campaign: build_campaign(),
            rng,
        };
        game
    }

    /// Plays the levels of a levelset in place of the built-in ones, from the
    /// first. Without any level the game stays as it is.
    pub fn load_external_levels(&mut self, levels: &Vec<ExternalLevel>)
        requires
            levels_fit(levelset::level_views(levels@)),
        ensures
            final(self)@ == old(self)@.after_loading(levelset::level_views(levels@)),
            final(self).rng == old(self).rng,
    {
        if levels.len() == 0 {
            return;
        }
        let ghost views = levelset::level_views(levels@);
        let mut campaign: Vec<Vec<Brick>> = Vec::new();
        let mut i: usize = 0;
        while i < levels.len()
            invariant
                i <= levels@.len(),
                views == levelset::level_views(levels@),
                levels_fit(views),
                boards(campaign@) == external_campaign(views).take(i as int),
            decreases levels@.len() - i,
        {
            let ghost before = campaign@;
            assert(views[i as int] == levels@[i as int]@);
            assert forall|k: int| 0 <= k < levels@[i as int]@.bricks.len() implies {
                &&& -SPAWN_LIMIT <= (#[trigger] levels@[i as int]@.bricks[k]).x <= SPAWN_LIMIT
                &&& -SPAWN_LIMIT <= levels@[i as int]@.bricks[k].y <= SPAWN_LIMIT
            } by {
                assert(views[i as int].bricks[k] == levels@[i as int]@.bricks[k]);
            }
            let board = build_external(&levels[i]);
            campaign.push(board);
            assert(boards(campaign@) == boards(before).push(board@));
            assert(boards(campaign@) == external_campaign(views).take(i + 1));
            i = i + 1;
        }
        assert(external_campaign(views).take(i as int) == external_campaign(views));
        assert(boards(campaign@)[0] == campaign@[0]@);
        self.bricks = campaign[0].clone();
        assert(self.bricks@ == campaign@[0]@);
        self.campaign = campaign;
        self.level = 1;
    }
}

} // verus!
