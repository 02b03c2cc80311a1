//! The scene and the bookkeeping of a drawing benchmark: a full board, two
//! extra balls, three capsules and a stream of breaking bricks.

use vstd::prelude::*;

use crate::events::{GameEvent, PowerUpKind};
use crate::game;
use crate::game::{
    Ball, Brick, Game, GameState, GameView, PowerUp, BRICK_GRID_MARGIN_TOP, PLAYFIELD_WIDTH,
};
use crate::levels::{BrickKind, BRICK_HEIGHT, BRICK_WIDTH, MAX_COLUMNS, MAX_ROWS};

verus! {

/// Frames that are drawn before the measurement starts.
pub const WARMUP_FRAMES: usize = 60;

/// Frames that are measured.
pub const MEASURED_FRAMES: usize = 600;

/// Frames from one sign of progress to the next.
pub const PROGRESS_FRAMES: usize = 100;

/// The brick in column `col` of row `row` of the full board.
pub open spec fn full_board_brick(row: int, col: int) -> Brick {
    Brick {
        x: ((PLAYFIELD_WIDTH - MAX_COLUMNS * BRICK_WIDTH) / 2 + col * BRICK_WIDTH + BRICK_WIDTH / 2) as i64,
        y: (BRICK_GRID_MARGIN_TOP + row * BRICK_HEIGHT + BRICK_HEIGHT / 2) as i64,
        width: BRICK_WIDTH,
        height: BRICK_HEIGHT,
        kind: BrickKind::Normal,
        hits_remaining: 1,
        score: 10,
    }
}

/// The full board, row by row.
pub open spec fn full_board() -> Seq<Brick> {
    Seq::new(
        (MAX_ROWS * MAX_COLUMNS) as nat,
        |i: int| full_board_brick(i / MAX_COLUMNS as int, i % MAX_COLUMNS as int),
    )
}

/// The largest board there is, all of normal bricks.
pub fn worst_case_bricks() -> (bricks: Vec<Brick>)
    ensures
        bricks@ == full_board(),
{
    let columns: i64 = MAX_COLUMNS as i64;
    let offset_x: i64 = (PLAYFIELD_WIDTH - columns * BRICK_WIDTH) / 2;
    let mut bricks: Vec<Brick> = Vec::new();
    let mut i: i64 = 0;
    while i < MAX_ROWS as i64 * columns
        invariant
            0 <= i <= MAX_ROWS * MAX_COLUMNS,
            columns == MAX_COLUMNS,
            offset_x == (PLAYFIELD_WIDTH - MAX_COLUMNS * BRICK_WIDTH) / 2,
            bricks@ == full_board().take(i as int),
        decreases MAX_ROWS * MAX_COLUMNS - i,
    {
        let row: i64 = i / columns;
        let col: i64 = i % columns;
        bricks.push(
            Brick {
                x: offset_x + col * BRICK_WIDTH + BRICK_WIDTH / 2,
                y: BRICK_GRID_MARGIN_TOP + row * BRICK_HEIGHT + BRICK_HEIGHT / 2,
                width: BRICK_WIDTH,
                height: BRICK_HEIGHT,
                kind: BrickKind::Normal,
                hits_remaining: 1,
                score: 10,
            },
        );
        i = i + 1;
        assert(bricks@ == full_board().take(i as int));
    }
    assert(full_board().take(i as int) == full_board());
    bricks
}

/// Breaking brick number `i`: spread over the board, every third armored.
pub open spec fn destroy_event(i: int) -> GameEvent {
    GameEvent::BrickDestroyedAt {
        x: (40 + i * 53 % 720) as i64,
        y: (80 + i * 31 % 400) as i64,
        width: BRICK_WIDTH,
        height: BRICK_HEIGHT,
        kind: if i % 3 == 0 {
            BrickKind::Armored
        } else {
            BrickKind::Normal
        },
    }
}

/// The reports of the first `n` breaking bricks.
pub open spec fn first_destroy_events(n: int) -> Seq<GameEvent> {
    Seq::new(n as nat, |i: int| destroy_event(i))
}

/// The reports of `n` breaking bricks.
pub fn destroy_events(n: u32) -> (events: Vec<GameEvent>)
    ensures
        events@ == first_destroy_events(n as int),
{
    let ghost all = Seq::new(n as nat, |i: int| destroy_event(i));
    let mut events: Vec<GameEvent> = Vec::new();
    let mut i: i64 = 0;
    while i < n as i64
        invariant
            0 <= i <= n,
            all == Seq::new(n as nat, |i: int| destroy_event(i)),
            events@ == all.take(i as int),
        decreases n - i,
    {
        let kind = if i % 3 == 0 {
            BrickKind::Armored
        } else {
            BrickKind::Normal
        };
        events.push(
            GameEvent::BrickDestroyedAt {
                x: 40 + i * 53 % 720,
                y: 80 + i * 31 % 400,
                width: BRICK_WIDTH,
                height: BRICK_HEIGHT,
                kind,
            },
        );
        i = i + 1;
        assert(events@ == all.take(i as int));
    }
    assert(all.take(i as int) == all);
    events
}

/// Whether a ball is in flight at these whole numbers.
pub open spec fn flies_at<R, F: Fn(i64) -> R>(
    ball: Ball<R>,
    convert: F,
    x: int,
    y: int,
    vx: int,
    vy: int,
) -> bool {
    &&& game::stands_for(convert, x, ball.x)
    &&& game::stands_for(convert, y, ball.y)
    &&& game::stands_for(convert, vx, ball.vx)
    &&& game::stands_for(convert, vy, ball.vy)
    &&& !ball.attached
}

/// Whether a capsule of a kind is at these whole numbers.
pub open spec fn falls_at<R, F: Fn(i64) -> R>(
    powerup: PowerUp<R>,
    convert: F,
    x: int,
    y: int,
    kind: PowerUpKind,
) -> bool {
    &&& game::stands_for(convert, x, powerup.x)
    &&& game::stands_for(convert, y, powerup.y)
    &&& powerup.kind == kind
}

/// Whether a game is one at its start but for its state, its board, its balls
/// and its capsules. Its main ball is in flight from where it rests.
pub open spec fn has_begun<R, F: Fn(i64) -> R>(game: Game<R>, start: GameView<R>, convert: F) -> bool {
    &&& game::at_start(start, convert)
    &&& game@ == (GameView {
        state: GameState::Playing,
        bricks: full_board(),
        ball: game.ball,
        extra_balls: game.extra_balls@,
        powerups: game.powerups@,
        ..start
    })
    &&& game.ball == (Ball {
        vx: game.ball.vx,
        vy: game.ball.vy,
        attached: false,
        ..start.ball
    })
}

/// A game in full swing: the largest board, three balls and three capsules.
pub fn stress_game<R: Copy, F: Fn(i64) -> R>(convert: F) -> (game: Game<R>)
    requires
        forall|n: i64| call_requires(convert, (n,)),
    ensures
        exists|start: GameView<R>| has_begun(game, start, convert),
        game::stands_for(convert, 220, game.ball.vx),
        game::stands_for(convert, -300, game.ball.vy),
        game.extra_balls@.len() == 2,
        flies_at(game.extra_balls@[0], convert, 300, 250, -180, 260),
        flies_at(game.extra_balls@[1], convert, 500, 320, 200, -240),
        game.extra_balls@[0].radius == game.ball.radius,
        game.extra_balls@[1].radius == game.ball.radius,
        game.powerups@.len() == 3,
        falls_at(game.powerups@[0], convert, 200, 400, PowerUpKind::Widen),
        falls_at(game.powerups@[1], convert, 420, 350, PowerUpKind::Slow),
        falls_at(game.powerups@[2], convert, 600, 300, PowerUpKind::Multiball),
{
    let mut game = Game::new(|n: i64| -> (x: R)
        ensures
            call_ensures(convert, (n,), x),
        { convert(n) });
    let ghost start = game@;
    game.state = GameState::Playing;
    game.bricks = worst_case_bricks();
    game.ball.attached = false;
    game.ball.vx = convert(220);
    game.ball.vy = convert(-300);
    game.extra_balls.push(
        Ball {
            x: convert(300),
            y: convert(250),
            vx: convert(-180),
            vy: convert(260),
            radius: game.ball.radius,
            attached: false,
        },
    );
    game.extra_balls.push(
        Ball {
            x: convert(500),
            y: convert(320),
            vx: convert(200),
            vy: convert(-240),
            radius: game.ball.radius,
            attached: false,
        },
    );
    game.powerups.push(PowerUp { x: convert(200), y: convert(400), kind: PowerUpKind::Widen });
    game.powerups.push(PowerUp { x: convert(420), y: convert(350), kind: PowerUpKind::Slow });
    game.powerups.push(PowerUp { x: convert(600), y: convert(300), kind: PowerUpKind::Multiball });
    assert(has_begun(game, start, convert));
    game
}

/// What to do after a frame of the benchmark.
#[derive(Debug, Clone, Copy, PartialEq, Eq, Structural)]
pub struct FrameReport {
    /// Show a sign of progress.
    pub progress: bool,
    /// Keep the frame's time.
    pub measured: bool,
    /// Report and stop.
    pub finished: bool,
}

/// Counts the frames of the benchmark.
#[derive(Debug)]
pub struct FrameMeter {
    pub frame: usize,
}

/// What to do after frame number `frame`.
pub open spec fn report_of(frame: int) -> FrameReport {
    FrameReport {
        progress: frame % PROGRESS_FRAMES as int == 0,
        measured: frame > WARMUP_FRAMES,
        finished: frame >= WARMUP_FRAMES + MEASURED_FRAMES,
    }
}

/// The number of the frame after frame number `frame`.
pub open spec fn next_frame(frame: int) -> int {
    frame + 1
}

impl FrameMeter {
    /// Counts one more frame.
    pub fn count(&mut self) -> (report: FrameReport)
        requires
            old(self).frame < usize::MAX,
        ensures
            final(self).frame == next_frame(old(self).frame as int),
            report == report_of(final(self).frame as int),
    {
        self.frame = self.frame + 1;
        FrameReport {
            progress: self.frame % PROGRESS_FRAMES == 0,
            measured: self.frame > WARMUP_FRAMES,
            finished: self.frame >= WARMUP_FRAMES + MEASURED_FRAMES,
        }
    }
}

/// The full board has a normal brick in each of eight rows and fourteen columns,
/// where a level of that size has its bricks.
pub proof fn law_full_boards_have_a_brick_in_every_cell(row: int, col: int)
    requires
        0 <= row < 8,
        0 <= col < 14,
    ensures
        ({
            let board = full_board();
            let brick = board[row * 14 + col];
            &&& board.len() == 112
            &&& brick.x == 36 + 52 * col + 26
            &&& brick.y == 60 + 22 * row + 11
            &&& brick.width == 52
            &&& brick.height == 22
            &&& brick.kind == BrickKind::Normal
            &&& brick.hits_remaining == 1
            &&& brick.score == 10
        }),
{
    assert((row * 14 + col) / 14 == row && (row * 14 + col) % 14 == col);
}

proof fn lemma_next_column(a: int)
    ensures
        0 <= a % 720 < 720,
        (a + 53) % 720 == a % 720 + 53 || (a + 53) % 720 == a % 720 + 53 - 720,
{
}

proof fn lemma_next_row(a: int)
    ensures
        0 <= a % 400 < 400,
        (a + 31) % 400 == a % 400 + 31 || (a + 31) % 400 == a % 400 + 31 - 400,
{
}

/// The breaking bricks are spread over the board: each is 53 pixels to the right
/// of the one before and 31 below it, starting over at the left and the top
/// where it would leave the board. The first of every three is armored.
pub proof fn law_breaking_bricks_are_spread(i: int, x: i64, y: i64, next_x: i64, next_y: i64)
    requires
        0 <= i,
        destroy_event(i) matches GameEvent::BrickDestroyedAt { x: at_x, y: at_y, .. } && at_x == x
            && at_y == y,
        destroy_event(i + 1) matches GameEvent::BrickDestroyedAt { x: at_x, y: at_y, .. } && at_x
            == next_x && at_y == next_y,
    ensures
        destroy_event(0) == (GameEvent::BrickDestroyedAt {
            x: 40,
            y: 80,
            width: 52,
            height: 22,
            kind: BrickKind::Armored,
        }),
        next_x == x + 53 || next_x == x + 53 - 720,
        next_y == y + 31 || next_y == y + 31 - 400,
        40 <= x < 760,
        80 <= y < 480,
        destroy_event(i) == (GameEvent::BrickDestroyedAt {
            x,
            y,
            width: 52,
            height: 22,
            kind: if i % 3 == 0 {
                BrickKind::Armored
            } else {
                BrickKind::Normal
            },
        }),
{
    lemma_next_column(i * 53);
    lemma_next_row(i * 31);
    assert((i + 1) * 53 == i * 53 + 53);
    assert((i + 1) * 31 == i * 31 + 31);
    let column = i * 53 % 720;
    let row = i * 31 % 400;
    assert(x == 40 + column && y == 80 + row);
}

/// A ball that flies somewhere is there, in motion and off the paddle.
pub proof fn law_flying_balls_are_in_motion<R, F: Fn(i64) -> R>(
    ball: Ball<R>,
    convert: F,
    x: i64,
    y: i64,
    vx: i64,
    vy: i64,
)
    ensures
        flies_at(ball, convert, x as int, y as int, vx as int, vy as int) <==> {
            &&& call_ensures(convert, (x,), ball.x)
            &&& call_ensures(convert, (y,), ball.y)
            &&& call_ensures(convert, (vx,), ball.vx)
            &&& call_ensures(convert, (vy,), ball.vy)
            &&& !ball.attached
        },
{
}

/// A capsule that falls somewhere is there, and of its kind.
pub proof fn law_falling_capsules_are_of_their_kind<R, F: Fn(i64) -> R>(
    powerup: PowerUp<R>,
    convert: F,
    x: i64,
    y: i64,
    kind: PowerUpKind,
)
    ensures
        falls_at(powerup, convert, x as int, y as int, kind) <==> {
            &&& call_ensures(convert, (x,), powerup.x)
            &&& call_ensures(convert, (y,), powerup.y)
            &&& powerup.kind == kind
        },
{
}

/// A game in full swing is played on the full board, and is otherwise a game at
/// its start: three lives, nothing scored, nothing reported, the first level.
pub proof fn law_games_in_full_swing<R, F: Fn(i64) -> R>(
    game: Game<R>,
    start: GameView<R>,
    convert: F,
)
    requires
        has_begun(game, start, convert),
    ensures
        game.state == GameState::Playing,
        game.bricks@ == full_board(),
        game.lives == 3,
        game.score == 0,
        game.level == 1,
        game.events@.len() == 0,
        !game.ball.attached,
        game.ball.x == game.paddle.x,
        call_ensures(convert, (400,), game.paddle.x),
        call_ensures(convert, (548,), game.ball.y),
        call_ensures(convert, (6,), game.ball.radius),
        game@.campaign == game::built_in_campaign(),
{
}

/// The first 60 frames warm up, the 600 after them are measured, and with the
/// last of those the measurement is over. Every hundredth frame shows progress.
pub proof fn law_six_hundred_frames_are_measured(frame: int)
    requires
        0 < frame,
    ensures
        report_of(frame).measured <==> 61 <= frame,
        report_of(frame).finished <==> 660 <= frame,
        report_of(100 * frame).progress,
        report_of(frame).progress ==> frame == 100 * (frame / 100),
{
}

/// The reports are as many as were asked for, and each tells of the breaking
/// brick of its number: the first lies at (40, 80), and from one to the next the
/// place moves on by 53 and by 31, within the 720 by 400 that are used.
pub proof fn law_reports_come_in_order(n: int, k: int)
    requires
        0 <= k < n,
    ensures
        first_destroy_events(n).len() == n,
        first_destroy_events(n)[k] matches GameEvent::BrickDestroyedAt { x, y, kind, .. } && x == 40
            + (53 * k) % 720 && y == 80 + (31 * k) % 400 && (kind == BrickKind::Armored <==> k % 3
            == 0),
        first_destroy_events(k) == first_destroy_events(n).take(k),
{
    assert(first_destroy_events(k) == first_destroy_events(n).take(k));
}

/// Frames are counted one by one, so that the frame after the one before the last
/// is the one that ends the benchmark.
pub proof fn law_frames_are_counted_one_by_one(frame: int)
    requires
        0 <= frame,
    ensures
        next_frame(frame) - frame == 1,
        report_of(next_frame(frame)).finished && !report_of(frame).finished <==> frame == 659,
        report_of(next_frame(frame)).measured && !report_of(frame).measured <==> frame == 60,
{
}

} // verus!
