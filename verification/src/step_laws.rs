//! What each step of the game does to every part of it, told from what was
//! there before and what the front end reported.

use rand::rngs::StdRng;
use vstd::prelude::*;

use crate::chance;
use crate::events::{GameEvent, PowerUpKind};
use crate::game;
use crate::game::{
    Ball, Brick, Effects, Fall, Game, GameState, GameView, Input, Key, Mover, Paddle, Play,
    PowerUp, Rest, Turn,
};
use crate::game_laws;
use crate::levels;
use crate::levels::BrickKind;
use crate::levelset::LevelView;
use crate::order;

verus! {

/// The state machine follows the keys and touches nothing but the state and the
/// note of the pause key. Space starts the game from the menu. A pause key that
/// goes down pauses the game or resumes it; one that was down before does
/// nothing. The board is in play in every tick that finds the game playing and
/// does not pause it.
pub proof fn law_keys_drive_the_state<R>(game: GameView<R>, input: Input)
    ensures
        ({
            let after = game.after_tick(input);
            let goes_down = input.pause && !game.pause_was_held;
            &&& after.events == game.events
            &&& after.paddle == game.paddle
            &&& after.ball == game.ball
            &&& after.extra_balls == game.extra_balls
            &&& after.lives == game.lives
            &&& after.bricks == game.bricks
            &&& after.score == game.score
            &&& after.level == game.level
            &&& after.powerups == game.powerups
            &&& after.widen_timer == game.widen_timer
            &&& after.campaign == game.campaign
            &&& after.pause_was_held == input.pause
            &&& game.state == GameState::Menu && input.space ==> after.state == GameState::Playing
            &&& game.state == GameState::Playing && goes_down ==> after.state == GameState::Paused
            &&& game.state == GameState::Paused && goes_down ==> after.state == GameState::Playing
            &&& game.state == GameState::Menu && !input.space ==> after.state == game.state
            &&& game.state != GameState::Menu && !goes_down ==> after.state == game.state
            &&& game.state == GameState::GameOver || game.state == GameState::Victory
                ==> after.state == game.state
            &&& game.in_play(input) <==> game.state == GameState::Playing && after.state
                == GameState::Playing
        }),
{
}

/// A flying ball is left to its flight: taking the moved paddle changes nothing
/// of it, whatever the keys and whether or not the paddle is wide.
pub proof fn law_flying_balls_ignore_the_paddle<R>(
    game: GameView<R>,
    input: Input,
    play: Play<R>,
    width: R,
)
    requires
        !game.ball.attached,
    ensures
        game.after_play(input, play, width).ball == game.ball,
{
}

/// An attached ball rides the paddle and keeps its size. Space launches it with
/// the velocity of a launch; without it the ball stays on, whatever other keys
/// are held.
pub proof fn law_attached_balls_ride_or_launch<R>(
    game: GameView<R>,
    input: Input,
    play: Play<R>,
    width: R,
)
    requires
        game.ball.attached,
    ensures
        ({
            let after = game.after_play(input, play, width);
            &&& after.ball.x == play.paddle_x
            &&& after.ball.x == after.paddle.x
            &&& after.ball.y == play.rest_y
            &&& after.ball.radius == game.ball.radius
            &&& after.ball.attached <==> !input.space
            &&& input.space ==> after.ball.vx == play.launch_vx && after.ball.vy == play.launch_vy
            &&& !input.space ==> after.ball.vx == game.ball.vx && after.ball.vy == game.ball.vy
        }),
{
}

/// Taking the moved paddle moves the paddle to its new place and width, notes
/// the time left of a widening, and changes nothing else but the main ball.
pub proof fn law_play_moves_the_paddle<R>(
    game: GameView<R>,
    input: Input,
    play: Play<R>,
    width: R,
)
    ensures
        ({
            let after = game.after_play(input, play, width);
            &&& after.paddle.x == play.paddle_x
            &&& after.paddle.width == width
            &&& after.paddle.y == game.paddle.y
            &&& after.paddle.height == game.paddle.height
            &&& after.widen_timer == play.widen_timer
            &&& after.events == game.events
            &&& after.extra_balls == game.extra_balls
            &&& after.lives == game.lives
            &&& after.state == game.state
            &&& after.bricks == game.bricks
            &&& after.score == game.score
            &&& after.level == game.level
            &&& after.powerups == game.powerups
            &&& after.pause_was_held == game.pause_was_held
            &&& after.campaign == game.campaign
        }),
{
}

/// A paddle is wide or not: a widening makes it half as wide again.
pub proof fn law_widened_paddles_are_half_as_wide_again()
    ensures
        game::width_of_paddle(false) == 100,
        2 * game::width_of_paddle(true) == 3 * game::width_of_paddle(false),
{
}

/// Whether everything of a game but its bricks, its score and its events is as
/// it was.
pub open spec fn only_board_changed<R>(before: GameView<R>, after: GameView<R>) -> bool {
    &&& after.paddle == before.paddle
    &&& after.ball == before.ball
    &&& after.extra_balls == before.extra_balls
    &&& after.lives == before.lives
    &&& after.state == before.state
    &&& after.level == before.level
    &&& after.powerups == before.powerups
    &&& after.widen_timer == before.widen_timer
    &&& after.pause_was_held == before.pause_was_held
    &&& after.campaign == before.campaign
}

/// A hit on a brick that holds, because it is indestructible or has more than
/// one hit to go, leaves every brick where it is, scores nothing and reports
/// nothing. Of the brick itself only the hits that it has left change, by one,
/// and not even those if it is indestructible.
pub proof fn law_hits_that_bricks_hold<R>(game: GameView<R>, index: int, other: int)
    requires
        0 <= index < game.bricks.len(),
        0 <= other < game.bricks.len(),
        game.bricks[index].kind == BrickKind::Indestructible || game.bricks[index].hits_remaining
            > 1,
    ensures
        ({
            let brick = game.bricks[index];
            let after = game.after_hit(index);
            &&& only_board_changed(game, after)
            &&& after.score == game.score
            &&& after.events == game.events
            &&& after.bricks.len() == game.bricks.len()
            &&& other != index ==> after.bricks[other] == game.bricks[other]
            &&& after.bricks[index].x == brick.x
            &&& after.bricks[index].y == brick.y
            &&& after.bricks[index].width == brick.width
            &&& after.bricks[index].height == brick.height
            &&& after.bricks[index].kind == brick.kind
            &&& after.bricks[index].score == brick.score
            &&& brick.kind == BrickKind::Indestructible ==> after.bricks[index].hits_remaining
                == brick.hits_remaining
            &&& brick.kind != BrickKind::Indestructible ==> after.bricks[index].hits_remaining
                == brick.hits_remaining - 1
        }),
{
}

/// A hit on a brick that can be broken and has no more than one hit to go
/// breaks it: that brick is gone, the others close up in their order, its points
/// are added, and it is reported twice, first without and then with its place,
/// its size and its kind.
pub proof fn law_hits_that_break_bricks<R>(game: GameView<R>, index: int, other: int)
    requires
        0 <= index < game.bricks.len(),
        0 <= other < game.bricks.len(),
        game.bricks[index].kind != BrickKind::Indestructible,
        game.bricks[index].hits_remaining <= 1,
        game.score + game.bricks[index].score <= u32::MAX,
    ensures
        ({
            let brick = game.bricks[index];
            let after = game.after_hit(index);
            let reports = game.events.len() as int;
            &&& only_board_changed(game, after)
            &&& after.score == game.score + brick.score
            &&& after.bricks.len() == game.bricks.len() - 1
            &&& other < index ==> after.bricks[other] == game.bricks[other]
            &&& other > index ==> after.bricks[other - 1] == game.bricks[other]
            &&& after.events.len() == reports + 2
            &&& after.events.take(reports) == game.events
            &&& after.events[reports] == GameEvent::BrickDestroyed
            &&& after.events[reports + 1] == (GameEvent::BrickDestroyedAt {
                x: brick.x,
                y: brick.y,
                width: brick.width,
                height: brick.height,
                kind: brick.kind,
            })
        }),
{
    assert(game.after_hit(index).events.take(game.events.len() as int) == game.events);
}

/// A hit can be made if the points of the brick fit the score, or if the brick
/// holds.
pub proof fn law_only_broken_bricks_need_room<R>(game: GameView<R>, index: int)
    requires
        0 <= index < game.bricks.len(),
    ensures
        ({
            let brick = game.bricks[index];
            let holds = brick.kind == BrickKind::Indestructible || brick.hits_remaining > 1;
            game.score_fits(Some(index)) <==> holds || game.score + brick.score <= u32::MAX
        }),
        game.score_fits(None),
{
}

/// A dropped power-up falls from where it was dropped, after all that fall
/// already, and is reported. Nothing else changes, and nothing at all if there
/// is none.
pub proof fn law_dropped_power_ups_fall<R>(game: GameView<R>, kind: PowerUpKind, x: R, y: R)
    ensures
        game.after_drop(None, x, y) == game,
        ({
            let after = game.after_drop(Some(kind), x, y);
            let falling = game.powerups.len() as int;
            let reports = game.events.len() as int;
            &&& after.powerups.len() == falling + 1
            &&& after.powerups.take(falling) == game.powerups
            &&& after.powerups[falling].x == x
            &&& after.powerups[falling].y == y
            &&& after.powerups[falling].kind == kind
            &&& after.events.len() == reports + 1
            &&& after.events.take(reports) == game.events
            &&& after.events[reports] == GameEvent::PowerUpSpawned(kind)
            &&& after == (GameView { powerups: after.powerups, events: after.events, ..game })
        }),
{
    let after = game.after_drop(Some(kind), x, y);
    assert(after.powerups.take(game.powerups.len() as int) == game.powerups);
    assert(after.events.take(game.events.len() as int) == game.events);
}

/// A broken brick drops something with a chance of fifteen percent, and then
/// each of the three power-ups with the same chance. The second draw follows on
/// the first, and is only made if the first succeeds.
pub proof fn law_drops_are_drawn_fairly(rng: StdRng)
    ensures
        ({
            let (hit, next) = chance::drawn_ratio(rng, 3, 20);
            let (roll, last) = chance::drawn_below(next, 3);
            let (kind, after) = game::chance_drop(rng);
            &&& !hit ==> kind is None && after == next
            &&& hit ==> kind is Some && after == last
            &&& hit && roll == 0 ==> kind == Some(PowerUpKind::Widen)
            &&& hit && roll == 1 ==> kind == Some(PowerUpKind::Slow)
            &&& hit && roll == 2 ==> kind == Some(PowerUpKind::Multiball)
        }),
        100 * game::DROP_NUMERATOR == 15 * game::DROP_DENOMINATOR,
{
}

/// Each of the three rolls stands for another power-up.
pub proof fn law_rolls_stand_for_different_power_ups(first: u32, second: u32)
    requires
        first < 3,
        second < 3,
        first != second,
    ensures
        game::rolled_powerup(first) != game::rolled_powerup(second),
{
}

/// A parked ball rests over the middle of the paddle without speed.
pub proof fn law_parked_balls_rest_on_the_paddle<R>(paddle: Paddle<R>, rest: Rest<R>)
    ensures
        ({
            let ball = game::parked(paddle, rest);
            &&& ball.attached
            &&& ball.x == paddle.x
            &&& ball.y == rest.y
            &&& ball.vx == rest.zero
            &&& ball.vy == rest.zero
            &&& ball.radius == rest.radius
        }),
{
}

/// Whether everything of a game that no end of a substep touches is as it was.
pub open spec fn frame_of_play_kept<R>(before: GameView<R>, after: GameView<R>) -> bool {
    &&& after.paddle == before.paddle
    &&& after.score == before.score
    &&& after.widen_timer == before.widen_timer
    &&& after.pause_was_held == before.pause_was_held
    &&& after.campaign == before.campaign
}

/// A substep that ends on a board with something to break, and with the main
/// ball still there, changes nothing.
pub proof fn law_uneventful_substeps_change_nothing<R>(game: GameView<R>, i: int, rest: Rest<R>)
    requires
        0 <= i < game.bricks.len(),
        game.bricks[i].kind != BrickKind::Indestructible,
    ensures
        game.after_substep(false, rest) == game,
{
    law_boards_are_cleared_when_nothing_can_break(game.bricks, i);
}

/// A board is cleared exactly when no brick on it can be broken.
pub proof fn law_boards_are_cleared_when_nothing_can_break(bricks: Seq<Brick>, i: int)
    ensures
        0 <= i < bricks.len() && bricks[i].kind != BrickKind::Indestructible
            ==> game::destructible(bricks) > 0,
        (forall|k: int| 0 <= k < bricks.len() ==> (#[trigger] bricks[k]).kind
            == BrickKind::Indestructible) ==> game::destructible(bricks) == 0,
        game::destructible(bricks) == order::rank(
            |k: int| bricks[k].kind != BrickKind::Indestructible,
            bricks.len() as int,
        ),
    decreases bricks.len(),
{
    if bricks.len() > 0 {
        let before = bricks.drop_last();
        law_boards_are_cleared_when_nothing_can_break(before, i);
        assert forall|k: int| 0 <= k < before.len() implies before[k] == bricks[k] by {}
        order::lemma_same_rank(
            |k: int| before[k].kind != BrickKind::Indestructible,
            |k: int| bricks[k].kind != BrickKind::Indestructible,
            before.len() as int,
        );
    }
}

/// A main ball that drops out while others fly is replaced by the last of them.
/// The others stay in their order, one loss is reported, and nothing else
/// changes.
pub proof fn law_the_last_extra_ball_takes_over<R>(
    game: GameView<R>,
    i: int,
    k: int,
    rest: Rest<R>,
)
    requires
        0 <= i < game.bricks.len(),
        game.bricks[i].kind != BrickKind::Indestructible,
        0 <= k < game.extra_balls.len(),
    ensures
        ({
            let after = game.after_substep(true, rest);
            let last = game.extra_balls.len() - 1;
            let reports = game.events.len() as int;
            &&& frame_of_play_kept(game, after)
            &&& after.ball == game.extra_balls[last]
            &&& after.extra_balls.len() == last
            &&& k < last ==> after.extra_balls[k] == game.extra_balls[k]
            &&& after.events.len() == reports + 1
            &&& after.events.take(reports) == game.events
            &&& after.events[reports] == GameEvent::BallLost
            &&& after.lives == game.lives
            &&& after.level == game.level
            &&& after.state == game.state
            &&& after.bricks == game.bricks
            &&& after.powerups == game.powerups
        }),
{
    law_boards_are_cleared_when_nothing_can_break(game.bricks, i);
    assert(game.after_substep(true, rest).events.take(game.events.len() as int) == game.events);
}

/// The last ball that drops out costs a life: a new ball rests on the paddle,
/// nothing else flies or falls, and the bricks stay as they are. The loss of the
/// ball, that of the life, and the end of the game if that was the last life are
/// reported in this order.
pub proof fn law_the_last_ball_costs_a_life<R>(game: GameView<R>, i: int, rest: Rest<R>)
    requires
        0 <= i < game.bricks.len(),
        game.bricks[i].kind != BrickKind::Indestructible,
        game.extra_balls.len() == 0,
        game.lives > 0,
    ensures
        ({
            let after = game.after_substep(true, rest);
            let reports = game.events.len() as int;
            &&& frame_of_play_kept(game, after)
            &&& after.ball == game::parked(game.paddle, rest)
            &&& after.extra_balls.len() == 0
            &&& after.powerups.len() == 0
            &&& after.bricks == game.bricks
            &&& after.level == game.level
            &&& after.lives == game.lives - 1
            &&& after.events.take(reports) == game.events
            &&& after.events[reports] == GameEvent::BallLost
            &&& after.events[reports + 1] == GameEvent::LifeLost
            &&& game.lives > 1 ==> after.state == game.state && after.events.len() == reports + 2
            &&& game.lives == 1 ==> {
                &&& after.state == GameState::GameOver
                &&& after.events.len() == reports + 3
                &&& after.events[reports + 2] == GameEvent::GameOver
            }
        }),
{
    law_boards_are_cleared_when_nothing_can_break(game.bricks, i);
    assert(game.after_substep(true, rest).events.take(game.events.len() as int) == game.events);
}

/// A board on which nothing can be broken is left for the next one of the
/// campaign, with a ball on the paddle and nothing else in flight or falling,
/// whether or not the main ball dropped out. After the last board the game is
/// won, and all stays as it is.
pub proof fn law_cleared_boards_are_left<R>(game: GameView<R>, main_lost: bool, rest: Rest<R>)
    requires
        forall|k: int|
            0 <= k < game.bricks.len() ==> (#[trigger] game.bricks[k]).kind
                == BrickKind::Indestructible,
        game.campaign.len() <= usize::MAX,
    ensures
        ({
            let after = game.after_substep(main_lost, rest);
            let reports = game.events.len() as int;
            &&& frame_of_play_kept(game, after)
            &&& after.lives == game.lives
            &&& after.events.take(reports) == game.events
            &&& after.events[reports] == GameEvent::LevelCleared
            &&& game.level < game.campaign.len() ==> {
                &&& after.events.len() == reports + 1
                &&& after.state == game.state
                &&& after.level == game.level + 1
                &&& after.bricks == game.campaign[game.level as int]
                &&& after.ball == game::parked(game.paddle, rest)
                &&& after.extra_balls.len() == 0
                &&& after.powerups.len() == 0
            }
            &&& game.level >= game.campaign.len() ==> {
                &&& after.events.len() == reports + 2
                &&& after.events[reports + 1] == GameEvent::Victory
                &&& after.state == GameState::Victory
                &&& after.level == game.level
                &&& after.bricks == game.bricks
                &&& after.ball == game.ball
                &&& after.extra_balls == game.extra_balls
                &&& after.powerups == game.powerups
            }
        }),
{
    law_boards_are_cleared_when_nothing_can_break(game.bricks, 0);
    assert(game.after_substep(main_lost, rest).events.take(game.events.len() as int)
        == game.events);
}

/// The balls of a substep move in order: the main ball first, then each extra
/// ball once. The place of one that drops out is taken by the next. As long as
/// some have yet to move, settling one changes nothing but that ball, and
/// reports its loss if it is an extra ball; the loss of the main ball is noted.
pub proof fn law_balls_move_in_order<R>(
    game: GameView<R>,
    turn: Turn,
    ball: Ball<R>,
    lost: bool,
    rest: Rest<R>,
    k: int,
)
    requires
        game.turn_fits(turn),
        game.extra_balls.len() <= usize::MAX,
    ensures
        ({
            let after = game.after_settling(turn, ball, lost, rest);
            let next = game.next_turn(turn, ball, lost, rest);
            let count = game.extra_balls.len();
            &&& turn.next == Mover::Main && count > 0 ==> {
                &&& after == (GameView { ball, ..game })
                &&& next == (Turn { left: turn.left, main_lost: lost, next: Mover::Extra(0) })
            }
            &&& turn.next matches Mover::Extra(index) ==> {
                &&& !lost && index + 1 < count ==> {
                    &&& after == (GameView { extra_balls: after.extra_balls, ..game })
                    &&& after.extra_balls.len() == count
                    &&& after.extra_balls[index as int] == ball
                    &&& 0 <= k < count && k != index ==> after.extra_balls[k]
                        == game.extra_balls[k]
                    &&& next == (Turn { next: Mover::Extra((index + 1) as usize), ..turn })
                }
                &&& lost && index + 1 < count ==> {
                    &&& after == (GameView {
                        extra_balls: after.extra_balls,
                        events: game.events.push(GameEvent::BallLost),
                        ..game
                    })
                    &&& after.extra_balls.len() == count - 1
                    &&& 0 <= k < index ==> after.extra_balls[k] == game.extra_balls[k]
                    &&& index < k < count ==> after.extra_balls[k - 1] == game.extra_balls[k]
                    &&& next == turn
                }
            }
        }),
{
}

/// Once the last ball of a substep moved, the flight goes on with the main ball
/// and a substep less, unless that was the last substep, the game is no longer
/// played, or the ball is back on the paddle.
pub proof fn law_substeps_follow_one_another<R>(
    game: GameView<R>,
    turn: Turn,
    ball: Ball<R>,
    lost: bool,
    rest: Rest<R>,
)
    requires
        game.turn_fits(turn),
        match turn.next {
            Mover::Main => game.extra_balls.len() == 0,
            Mover::Extra(index) => index + 1 == game.extra_balls.len(),
            Mover::Done => false,
        },
    ensures
        ({
            let after = game.after_settling(turn, ball, lost, rest);
            let next = game.next_turn(turn, ball, lost, rest);
            let over = turn.left == 1 || after.state != GameState::Playing || after.ball.attached;
            &&& over ==> next.next == Mover::Done
            &&& !over ==> next == (Turn {
                left: (turn.left - 1) as u32,
                main_lost: false,
                next: Mover::Main,
            })
        }),
{
}

/// The last ball of a substep is moved like any other before the end of the
/// substep is dealt with. The main ball counts as lost if it dropped out in
/// this substep, whichever ball moves last.
pub proof fn law_substeps_end_after_the_last_ball<R>(
    game: GameView<R>,
    turn: Turn,
    ball: Ball<R>,
    lost: bool,
    rest: Rest<R>,
)
    requires
        game.turn_fits(turn),
    ensures
        turn.next == Mover::Main && game.extra_balls.len() == 0 ==> game.after_settling(
            turn,
            ball,
            lost,
            rest,
        ) == (GameView { ball, ..game }).after_substep(lost, rest),
        turn.next matches Mover::Extra(index) ==> index + 1 == game.extra_balls.len() ==> {
            let others = game.extra_balls.take(index as int);
            game.after_settling(turn, ball, lost, rest) == (if lost {
                GameView {
                    extra_balls: others,
                    events: game.events.push(GameEvent::BallLost),
                    ..game
                }
            } else {
                GameView { extra_balls: others.push(ball), ..game }
            }).after_substep(turn.main_lost, rest)
        },
{
    if let Mover::Extra(index) = turn.next {
        if index + 1 == game.extra_balls.len() {
            let others = game.extra_balls.take(index as int);
            assert(game.extra_balls.remove(index as int) == others);
            assert(game.extra_balls.update(index as int, ball) == others.push(ball));
        }
    }
}

/// A flight begins with the main ball and all of its substeps, and without any
/// substep there is none.
pub proof fn law_flights_begin_with_the_main_ball(substeps: u32)
    ensures
        game::first_turn(substeps).left == substeps,
        !game::first_turn(substeps).main_lost,
        substeps > 0 ==> game::first_turn(substeps).next == Mover::Main,
        substeps == 0 ==> game::first_turn(substeps).next == Mover::Done,
{
}

/// Whether a capsule goes on falling.
pub open spec fn keeps_falling<R>(falls: Seq<Fall<R>>, i: int) -> bool {
    !falls[i].caught && !falls[i].below
}

/// Every capsule that is neither caught nor below the bottom edge goes on
/// falling, at its new height and otherwise as it was, in the same order as
/// before; and no other does.
pub proof fn law_capsules_fall_on<R>(powerups: Seq<PowerUp<R>>, falls: Seq<Fall<R>>, i: int)
    requires
        0 <= i < falls.len(),
        falls.len() == powerups.len(),
    ensures
        ({
            let kept = |k: int| keeps_falling(falls, k);
            let falling = game::still_falling(powerups, falls);
            &&& falling.len() == order::rank(kept, falls.len() as int)
            &&& kept(i) ==> {
                let place = order::rank(kept, i);
                &&& 0 <= place < falling.len()
                &&& falling[place].x == powerups[i].x
                &&& falling[place].kind == powerups[i].kind
                &&& falling[place].y == falls[i].y
            }
        }),
{
    lemma_falling(powerups, falls, falls.len() as int, i);
    assert(falls.take(falls.len() as int) == falls);
}

proof fn lemma_falling<R>(powerups: Seq<PowerUp<R>>, falls: Seq<Fall<R>>, count: int, i: int)
    requires
        0 <= count <= falls.len(),
    ensures
        ({
            let kept = |k: int| keeps_falling(falls, k);
            let falling = game::still_falling(powerups, falls.take(count));
            &&& falling.len() == order::rank(kept, count)
            &&& 0 <= i < count && kept(i) ==> {
                let place = order::rank(kept, i);
                &&& 0 <= place < falling.len()
                &&& falling[place] == (PowerUp { y: falls[i].y, ..powerups[i] })
            }
        }),
    decreases count,
{
    let kept = |k: int| keeps_falling(falls, k);
    if count > 0 {
        lemma_falling(powerups, falls, count - 1, i);
        assert(falls.take(count).drop_last() == falls.take(count - 1));
        if 0 <= i < count {
            order::lemma_rank_grows(kept, i, count);
        }
    }
}

/// Every caught capsule is reported by its kind, in the order in which they
/// fall, and no other is.
pub proof fn law_caught_capsules_are_reported<R>(
    powerups: Seq<PowerUp<R>>,
    falls: Seq<Fall<R>>,
    i: int,
)
    requires
        0 <= i < falls.len(),
        falls.len() == powerups.len(),
    ensures
        ({
            let caught = |k: int| falls[k].caught;
            let kinds = game::caught_kinds(powerups, falls);
            &&& kinds.len() == order::rank(caught, falls.len() as int)
            &&& caught(i) ==> {
                let place = order::rank(caught, i);
                0 <= place < kinds.len() && kinds[place] == powerups[i].kind
            }
        }),
{
    lemma_caught(powerups, falls, falls.len() as int, i);
    assert(falls.take(falls.len() as int) == falls);
}

proof fn lemma_caught<R>(powerups: Seq<PowerUp<R>>, falls: Seq<Fall<R>>, count: int, i: int)
    requires
        0 <= count <= falls.len(),
    ensures
        ({
            let caught = |k: int| falls[k].caught;
            let kinds = game::caught_kinds(powerups, falls.take(count));
            &&& kinds.len() == order::rank(caught, count)
            &&& 0 <= i < count && caught(i) ==> {
                let place = order::rank(caught, i);
                0 <= place < kinds.len() && kinds[place] == powerups[i].kind
            }
        }),
    decreases count,
{
    let caught = |k: int| falls[k].caught;
    if count > 0 {
        lemma_caught(powerups, falls, count - 1, i);
        assert(falls.take(count).drop_last() == falls.take(count - 1));
        if 0 <= i < count {
            order::lemma_rank_grows(caught, i, count);
        }
    }
}

/// Falling changes nothing but the capsules and the list of events, which gets
/// one report for each capsule that was caught, after those that it has.
pub proof fn law_falling_touches_capsules_only<R>(game: GameView<R>, falls: Seq<Fall<R>>, i: int)
    requires
        falls.len() == game.powerups.len(),
        0 <= i < game::caught_kinds(game.powerups, falls).len(),
    ensures
        ({
            let after = game.after_falls(falls);
            let kinds = game::caught_kinds(game.powerups, falls);
            let reports = game.events.len() as int;
            &&& after.powerups == game::still_falling(game.powerups, falls)
            &&& after.events.len() == reports + kinds.len()
            &&& after.events.take(reports) == game.events
            &&& after.events[reports + i] == GameEvent::PowerUpCaught(kinds[i])
            &&& after == (GameView { powerups: after.powerups, events: after.events, ..game })
        }),
{
    assert(game.after_falls(falls).events.take(game.events.len() as int) == game.events);
}

/// Without a catch nothing is reported, and only the capsules change.
pub proof fn law_falling_unseen_is_not_reported<R>(game: GameView<R>, falls: Seq<Fall<R>>)
    requires
        falls.len() == game.powerups.len(),
        forall|k: int| 0 <= k < falls.len() ==> !(#[trigger] falls[k]).caught,
    ensures
        game.after_falls(falls) == (GameView {
            powerups: game.after_falls(falls).powerups,
            ..game
        }),
{
    let caught = |k: int| falls[k].caught;
    lemma_caught(game.powerups, falls, falls.len() as int, 0);
    assert(falls.take(falls.len() as int) == falls);
    order::lemma_same_rank(caught, |k: int| false, falls.len() as int);
    lemma_no_rank(falls.len() as int);
    assert(game.after_falls(falls).events == game.events);
}

proof fn lemma_no_rank(end: int)
    ensures
        order::rank(|k: int| false, end) == 0,
    decreases end,
{
    if end > 0 {
        lemma_no_rank(end - 1);
    }
}

/// A widening sets its time and changes nothing else: no ball, no brick, and
/// not even the paddle, which is sized in the next tick.
pub proof fn law_widening_only_sets_its_time<R>(
    game: GameView<R>,
    effects: Effects<R>,
    full_time: R,
)
    ensures
        game.after_powerup(PowerUpKind::Widen, effects, full_time) == (GameView {
            widen_timer: full_time,
            ..game
        }),
{
}

/// Slowing gives the main ball the first of the slowed velocities and each extra
/// ball the one after its own place, and changes nothing else of any ball or of
/// the game.
pub proof fn law_slowing_gives_each_ball_its_velocity<R>(
    game: GameView<R>,
    effects: Effects<R>,
    full_time: R,
    i: int,
)
    requires
        effects.slowed@.len() == game.extra_balls.len() + 1,
        0 <= i < effects.slowed@.len(),
    ensures
        ({
            let after = game.after_powerup(PowerUpKind::Slow, effects, full_time);
            let before = if i == 0 {
                game.ball
            } else {
                game.extra_balls[i - 1]
            };
            let slowed = if i == 0 {
                after.ball
            } else {
                after.extra_balls[i - 1]
            };
            &&& slowed.vx == effects.slowed@[i].0
            &&& slowed.vy == effects.slowed@[i].1
            &&& slowed.x == before.x
            &&& slowed.y == before.y
            &&& slowed.radius == before.radius
            &&& slowed.attached == before.attached
            &&& after.extra_balls.len() == game.extra_balls.len()
            &&& after == (GameView { ball: after.ball, extra_balls: after.extra_balls, ..game })
        }),
{
}

/// Splitting a ball adds two at its place and of its size: the first flies off
/// with the left velocity and the second with the right one. If those differ
/// from each other and from the velocity of the main ball, the three fan out.
/// The other balls and the rest of the game stay as they are.
pub proof fn law_multiball_fans_out<R>(
    game: GameView<R>,
    effects: Effects<R>,
    full_time: R,
    k: int,
)
    ensures
        ({
            let after = game.after_powerup(PowerUpKind::Multiball, effects, full_time);
            let count = game.extra_balls.len() as int;
            let left = after.extra_balls[count];
            let right = after.extra_balls[count + 1];
            &&& after.extra_balls.len() == count + 2
            &&& 0 <= k < count ==> after.extra_balls[k] == game.extra_balls[k]
            &&& (left.vx, left.vy) == effects.left
            &&& (right.vx, right.vy) == effects.right
            &&& left.x == game.ball.x && right.x == game.ball.x
            &&& left.y == game.ball.y && right.y == game.ball.y
            &&& left.radius == game.ball.radius && right.radius == game.ball.radius
            &&& left.attached == game.ball.attached && right.attached == game.ball.attached
            &&& after == (GameView { extra_balls: after.extra_balls, ..game })
            &&& effects.left != effects.right && effects.left != (game.ball.vx, game.ball.vy)
                && effects.right != (game.ball.vx, game.ball.vy) ==> {
                &&& (left.vx, left.vy) != (right.vx, right.vy)
                &&& (left.vx, left.vy) != (after.ball.vx, after.ball.vy)
                &&& (right.vx, right.vy) != (after.ball.vx, after.ball.vy)
            }
        }),
{
}

/// Each row is worth ten points less than the one above it, down to ten; the
/// top row is worth 70.
pub proof fn law_each_row_is_worth_ten_less(row: int)
    requires
        0 <= row,
    ensures
        game::row_points(0) == 70,
        game::row_points(row) > 10 ==> game::row_points(row + 1) == game::row_points(row) - 10,
        game::row_points(row) == 10 ==> game::row_points(row + 1) == 10,
{
}

/// A brick covers the cell that it was spawned for, in a grid that is centered
/// between the side walls and 60 pixels below the top edge. It takes one hit,
/// two if it is armored, and none that counts if it cannot be broken. It scores by
/// the row whose height is nearest to its own, or nothing if it cannot be broken.
pub proof fn law_bricks_cover_their_cells(x: int, y: int, kind: BrickKind, columns: int, row: int)
    requires
        -0x3fff_ffff_ffff_ffff <= x <= 0x3fff_ffff_ffff_ffff,
        -0x3fff_ffff_ffff_ffff <= y <= 0x3fff_ffff_ffff_ffff,
        0 <= columns <= 14,
        0 <= row,
        22 * row - 11 <= y < 22 * row + 11 || (row == 0 && y < 0),
    ensures
        ({
            let brick = game::brick_for(x, y, kind, columns);
            let mirror = game::brick_for((columns - 1) * 52 - x, y, kind, columns);
            &&& brick.width == 52
            &&& brick.height == 22
            &&& brick.kind == kind
            &&& brick.x - 26 - x == (800 - 52 * columns) / 2
            &&& (brick.x - 26) == 800 - (mirror.x + 26)
            &&& brick.y - 11 - y == 60
            &&& kind == BrickKind::Normal ==> brick.hits_remaining == 1
            &&& kind == BrickKind::Armored ==> brick.hits_remaining == 2
            &&& kind == BrickKind::Indestructible ==> brick.hits_remaining == 0
            &&& kind == BrickKind::Indestructible ==> brick.score == 0
            &&& kind != BrickKind::Indestructible ==> brick.score == game::row_points(row)
        }),
{
}

/// The board of a level from a levelset has one brick for each spawn, in the
/// same order and at the same distance from each other, and the campaign one
/// board for each level.
pub proof fn law_external_boards_follow_their_levels(
    levels: Seq<LevelView>,
    level: int,
    i: int,
    j: int,
)
    requires
        game::levels_fit(levels),
        0 <= level < levels.len(),
        0 <= i < levels[level].bricks.len(),
        0 <= j < levels[level].bricks.len(),
    ensures
        ({
            let campaign = game::external_campaign(levels);
            let spawns = levels[level].bricks;
            let board = campaign[level];
            &&& campaign.len() == levels.len()
            &&& board == game::external_board(levels[level])
            &&& board.len() == spawns.len()
            &&& board[i].kind == spawns[i].kind
            &&& board[i].x == spawns[i].x + 36 + 26
            &&& board[i].y == spawns[i].y + 60 + 11
            &&& board[i].width == 52 && board[i].height == 22
            &&& board[i].hits_remaining == match spawns[i].kind {
                BrickKind::Normal => 1int,
                BrickKind::Armored => 2,
                BrickKind::Indestructible => 0,
            }
            &&& board[i] == game::brick_for(
                spawns[i].x as int,
                spawns[i].y as int,
                spawns[i].kind,
                14,
            )
            &&& board[i].x - board[j].x == spawns[i].x - spawns[j].x
            &&& board[i].y - board[j].y == spawns[i].y - spawns[j].y
        }),
{
    assert(levels[level].bricks[i].x <= game::SPAWN_LIMIT);
    assert(levels[level].bricks[j].x <= game::SPAWN_LIMIT);
}

/// The board of a built-in level has one brick for each spawn of its grid, in
/// the same order, and the campaign holds the boards of all levels in play
/// order.
pub proof fn law_built_in_boards_follow_their_grids(index: int, i: int)
    requires
        0 <= index < 3,
        0 <= i < levels::level_spawns(levels::level_text(index)).len(),
    ensures
        ({
            let campaign = game::built_in_campaign();
            let spawns = levels::level_spawns(levels::level_text(index));
            let board = campaign[index];
            &&& campaign.len() == 3
            &&& board == game::built_in_board(index)
            &&& board.len() == spawns.len()
            &&& board[i].kind == spawns[i].kind
            &&& board[i].x == spawns[i].x + 36 + 26
            &&& board[i].y == spawns[i].y + 60 + 11
            &&& board[i].width == 52 && board[i].height == 22
            &&& board[i].hits_remaining == match spawns[i].kind {
                BrickKind::Normal => 1int,
                BrickKind::Armored => 2,
                BrickKind::Indestructible => 0,
            }
            &&& board[i] == game::brick_for(
                spawns[i].x as int,
                spawns[i].y as int,
                spawns[i].kind,
                14,
            )
        }),
{
    levels::law_built_in_levels_are_rectangles(index);
    lemma_grids_are_fourteen_wide(index);
    let text = levels::level_text(index);
    let spawn = levels::level_spawns(text)[i];
    levels::law_spawns_are_the_occupied_cells(text);
    let (row, col) = choose|row: int, col: int|
        0 <= row < text.len() && 0 <= col < text[row].len() && spawn == levels::spawn_at(
            row,
            col,
            #[trigger] levels::cell_kind(text[row][col])->0,
        );
    assert(text[row].len() == text[0].len());
}

proof fn lemma_grids_are_fourteen_wide(index: int)
    requires
        0 <= index < 3,
    ensures
        levels::level_text(index)[0].len() == 14,
{
    reveal_strlit("11111111111111");
    reveal_strlit("22222222222222");
    reveal_strlit("XXXXXXXXXXXXXX");
    if index == 0 {
        assert(levels::level_text(index)[0] == levels::LEVEL_1@[0]@);
    } else if index == 1 {
        assert(levels::level_text(index)[0] == levels::LEVEL_2@[0]@);
    } else {
        assert(levels::level_text(index)[0] == levels::LEVEL_3@[0]@);
    }
}

/// A game starts in the menu on the first of three levels, with three lives and
/// nothing scored, the paddle in the middle and 30 pixels above the bottom edge,
/// the ball at rest on it, and nothing else in flight, falling or reported.
pub proof fn law_games_start_in_the_menu<R, F: Fn(i64) -> R>(game: GameView<R>, convert: F)
    requires
        game::at_start(game, convert),
    ensures
        game.state == GameState::Menu,
        game.level == 1,
        game.lives == 3,
        game.score == 0,
        game.campaign.len() == 3,
        game.bricks == game.campaign[0],
        game.events.len() == 0,
        game.extra_balls.len() == 0,
        game.powerups.len() == 0,
        !game.pause_was_held,
        call_ensures(convert, (0,), game.widen_timer),
        call_ensures(convert, (400,), game.paddle.x),
        call_ensures(convert, (562,), game.paddle.y),
        call_ensures(convert, (100,), game.paddle.width),
        call_ensures(convert, (16,), game.paddle.height),
        game.ball.attached,
        game.ball.x == game.paddle.x,
        call_ensures(convert, (548,), game.ball.y),
        call_ensures(convert, (0,), game.ball.vx),
        game.ball.vy == game.ball.vx,
        call_ensures(convert, (6,), game.ball.radius),
{
}

/// Games that start alike but for their random number generator are alike, if
/// numbers are converted in one way only.
pub proof fn law_games_start_alike<R, F: Fn(i64) -> R>(
    first: GameView<R>,
    second: GameView<R>,
    convert: F,
)
    requires
        game::at_start(first, convert),
        game::at_start(second, convert),
        forall|n: i64, x: R, y: R|
            #[trigger] call_ensures(convert, (n,), x) && #[trigger] call_ensures(convert, (n,), y)
                ==> x == y,
    ensures
        first == second,
{
}

/// A ball rests at the given height, without speed, with a radius of six.
pub proof fn law_resting_balls_are_still<R, F: Fn(i64) -> R>(rest: Rest<R>, y: R, convert: F)
    requires
        game::rests_at(rest, y, convert),
    ensures
        rest.y == y,
        call_ensures(convert, (0,), rest.zero),
        call_ensures(convert, (6,), rest.radius),
{
}

/// A number stands for a whole number if that is what the conversion may give.
pub proof fn law_numbers_stand_for_what_they_convert<R, F: Fn(i64) -> R>(convert: F, n: i64, x: R)
    ensures
        game::stands_for(convert, n as int, x) <==> call_ensures(convert, (n,), x),
{
}

/// Each key has its one meaning, and notes whether it is down without touching
/// the other keys: the arrow keys and A and D move the paddle, Space launches, P
/// and Escape pause, and every other key does nothing.
pub proof fn law_keys_have_their_meaning(input: Input, key: Key, pressed: bool)
    ensures
        ({
            let after = input.with_key(key, pressed);
            let left = key == Key::ArrowLeft || key == Key::A;
            let right = key == Key::ArrowRight || key == Key::D;
            let pause = key == Key::P || key == Key::Escape;
            &&& left ==> after.left == pressed
            &&& right ==> after.right == pressed
            &&& key == Key::Space ==> after.space == pressed
            &&& pause ==> after.pause == pressed
            &&& !left ==> after.left == input.left
            &&& !right ==> after.right == input.right
            &&& key != Key::Space ==> after.space == input.space
            &&& !pause ==> after.pause == input.pause
        }),
{
}

/// The paddle is pushed to the side of the key that is held, and not at all if
/// both are or none is. Neither Space nor the pause key pushes it.
pub proof fn law_keys_push_to_their_side(input: Input, other: Input)
    ensures
        input.left && !input.right ==> input.push() == -1,
        !input.left && input.right ==> input.push() == 1,
        input.left == input.right ==> input.push() == 0,
        input.left == other.left && input.right == other.right ==> input.push() == other.push(),
        input.left == other.right && input.right == other.left ==> input.push() == -other.push(),
{
}

/// Loading levels starts with the first board of the new campaign and keeps
/// everything else of the game: its state, its score, its lives and its balls.
/// Loading none changes nothing.
pub proof fn law_loading_starts_a_new_campaign<R>(game: GameView<R>, levels: Seq<LevelView>)
    ensures
        ({
            let after = game.after_loading(levels);
            &&& levels.len() == 0 ==> after == game
            &&& levels.len() > 0 ==> {
                &&& after.campaign == game::external_campaign(levels)
                &&& after.campaign.len() == levels.len()
                &&& after.bricks == after.campaign[0]
                &&& after.level == 1
            }
            &&& after.events == game.events
            &&& after.paddle == game.paddle
            &&& after.ball == game.ball
            &&& after.extra_balls == game.extra_balls
            &&& after.lives == game.lives
            &&& after.state == game.state
            &&& after.score == game.score
            &&& after.powerups == game.powerups
            &&& after.widen_timer == game.widen_timer
            &&& after.pause_was_held == game.pause_was_held
        }),
{
}

/// A ball that touches nothing changes nothing. One that touches bricks strikes
/// the first of them, and bounces off that brick as it was.
pub proof fn law_balls_strike_the_first_brick<R, F: Fn(i64) -> R>(
    before: Game<R>,
    touched: Seq<bool>,
    convert: F,
    after: Game<R>,
    struck: Option<Brick>,
    index: int,
)
    requires
        touched.len() == before.bricks@.len(),
        game::collided(before, touched, convert, after, struck),
    ensures
        (forall|k: int| 0 <= k < touched.len() ==> !touched[k]) ==> struck is None && after
            == before,
        0 <= index < touched.len() && touched[index] && (forall|k: int|
            0 <= k < index ==> !touched[k]) ==> {
            &&& struck == Some(before.bricks@[index])
            &&& after@.bricks == before@.after_hit(index).bricks
            &&& after.score == before@.after_hit(index).score
            &&& after.lives == before.lives
            &&& after.state == before.state
            &&& after.level == before.level
            &&& after.paddle == before.paddle
            &&& after.ball == before.ball
            &&& after.extra_balls@ == before.extra_balls@
        },
{
    game_laws::law_the_first_touched_brick_is_hit(touched);
}

/// Only a brick that breaks draws from the random number generator, and what it
/// drops falls from its own center.
pub proof fn law_broken_bricks_drop_where_they_stood<R, F: Fn(i64) -> R>(
    before: Game<R>,
    touched: Seq<bool>,
    convert: F,
    after: Game<R>,
    struck: Option<Brick>,
)
    requires
        touched.len() == before.bricks@.len(),
        game::collided(before, touched, convert, after, struck),
    ensures
        ({
            let breaks = struck is Some && struck->0.kind != BrickKind::Indestructible
                && struck->0.hits_remaining <= 1;
            let (drop, rng) = game::chance_drop(before.rng);
            let falling = before.powerups@.len() as int;
            &&& !breaks ==> after.rng == before.rng && after.powerups@ == before.powerups@
            &&& breaks ==> after.rng == rng
            &&& breaks && drop is None ==> after.powerups@ == before.powerups@
            &&& breaks && drop is Some ==> {
                &&& after.powerups@.len() == falling + 1
                &&& after.powerups@[falling].kind == drop->0
                &&& call_ensures(convert, (struck->0.x,), after.powerups@[falling].x)
                &&& call_ensures(convert, (struck->0.y,), after.powerups@[falling].y)
            }
        }),
{
}

/// The view of a game shows each part of it as it is.
pub proof fn law_views_show_the_game<R>(game: Game<R>, i: int)
    ensures
        game@.events == game.events@,
        game@.paddle == game.paddle,
        game@.ball == game.ball,
        game@.extra_balls == game.extra_balls@,
        game@.lives == game.lives,
        game@.state == game.state,
        game@.bricks == game.bricks@,
        game@.score == game.score,
        game@.level == game.level,
        game@.powerups == game.powerups@,
        game@.widen_timer == game.widen_timer,
        game@.pause_was_held == game.pause_was_held,
        game@.campaign.len() == game.campaign@.len(),
        0 <= i < game.campaign@.len() ==> game@.campaign[i] == game.campaign@[i]@,
{
}

/// The turn and the ball that a game has for it go together.
pub proof fn law_turns_name_balls_of_the_game<R>(game: GameView<R>, turn: Turn)
    ensures
        game.turn_fits(turn) ==> turn.next != Mover::Done && turn.left > 0,
        turn.left > 0 && turn.next == Mover::Main ==> game.turn_fits(turn),
        turn.left > 0 && turn.next is Extra ==> (game.turn_fits(turn) <==> turn.next->Extra_0
            < game.extra_balls.len()),
{
}

} // verus!
