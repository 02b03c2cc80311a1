//! Laws of the game: what holds after any step, and what holds of every game
//! that was played from its start.

use vstd::prelude::*;

use crate::events::{GameEvent, PowerUpKind};
use crate::game;
use crate::game::{
    Ball, Brick, Effects, Fall, GameState, GameView, Hit, Input, Mover, Play, PowerUp, Rest, Turn,
    PLAYFIELD_HEIGHT, PLAYFIELD_WIDTH, STARTING_LIVES,
};
use crate::levels;
use crate::levels::{BrickKind, BrickSpawn, BRICK_HEIGHT, BRICK_WIDTH, LEVEL_COUNT};
use crate::levelset::LevelView;

verus! {

/// One call of an operation of the game.
pub enum Step<R> {
    /// The state machine runs.
    Tick(Input),
    /// The paddle, now so wide, moved and the main ball may be launched.
    Play(Input, Play<R>, R),
    /// A ball hits the brick at a position, which may drop a power-up.
    Hit(int, Option<PowerUpKind>, R, R),
    /// A ball of a turn ended up somewhere, or dropped out.
    Settle(Turn, Ball<R>, bool, Rest<R>),
    /// The capsules fell.
    Falls(Seq<Fall<R>>),
    /// A power-up takes effect; a widening lasts so long.
    Catch(PowerUpKind, Effects<R>, R),
    /// A levelset is loaded.
    Load(Seq<LevelView>),
}

/// Whether the game can go from one state to another in a step.
pub open spec fn may_turn_into(before: GameState, after: GameState) -> bool {
    ||| before == after
    ||| before == GameState::Menu && after == GameState::Playing
    ||| before == GameState::Playing && after == GameState::Paused
    ||| before == GameState::Paused && after == GameState::Playing
    ||| before == GameState::Playing && after == GameState::GameOver
    ||| before == GameState::Playing && after == GameState::Victory
}

impl<R> GameView<R> {
    /// Whether a step is in order. Balls only fly, and so only hit bricks,
    /// drop out and catch power-ups, while the game is played; levels are
    /// loaded from the menu.
    pub open spec fn allows(self, step: Step<R>) -> bool {
        match step {
            Step::Tick(_) => true,
            Step::Play(_, _, _) => self.state == GameState::Playing,
            Step::Hit(index, drop, _, _) => {
                &&& self.state == GameState::Playing
                &&& !self.ball.attached
                &&& 0 <= index < self.bricks.len()
                &&& self.score_fits(Some(index))
                &&& drop is Some ==> game::hit_on(self.bricks[index]) == Hit::Destroyed
            },
            Step::Settle(turn, ball, _, _) => {
                &&& self.state == GameState::Playing
                &&& self.turn_fits(turn)
                &&& !ball.attached
            },
            Step::Falls(falls) => falls.len() == self.powerups.len(),
            Step::Catch(_, effects, _) => {
                &&& !self.ball.attached
                &&& effects.slowed@.len() == self.extra_balls.len() + 1
            },
            Step::Load(levels) => self.state == GameState::Menu && levels.len() > 0
                && levels.len() <= usize::MAX,
        }
    }

    /// The game after a step.
    pub open spec fn after(self, step: Step<R>) -> GameView<R> {
        match step {
            Step::Tick(input) => self.after_tick(input),
            Step::Play(input, play, width) => self.after_play(input, play, width),
            Step::Hit(index, drop, x, y) => self.after_hit(index).after_drop(drop, x, y),
            Step::Settle(turn, ball, lost, rest) => self.after_settling(turn, ball, lost, rest),
            Step::Falls(falls) => self.after_falls(falls),
            Step::Catch(kind, effects, full_time) => self.after_powerup(kind, effects, full_time),
            Step::Load(levels) => self.after_loading(levels),
        }
    }

    /// Whether every one of some steps is in order when its turn comes.
    pub open spec fn allows_all(self, steps: Seq<Step<R>>) -> bool
        decreases steps.len(),
    {
        steps.len() > 0 ==> {
            &&& self.allows_all(steps.drop_last())
            &&& self.after_all(steps.drop_last()).allows(steps.last())
        }
    }

    /// The game after some steps.
    pub open spec fn after_all(self, steps: Seq<Step<R>>) -> GameView<R>
        decreases steps.len(),
    {
        if steps.len() == 0 {
            self
        } else {
            self.after_all(steps.drop_last()).after(steps.last())
        }
    }

    /// What holds of a game at every moment.
    pub open spec fn consistent(self) -> bool {
        &&& 1 <= self.level <= self.campaign.len() <= usize::MAX
        &&& self.lives == 0 <==> self.state == GameState::GameOver
        &&& self.state == GameState::Victory ==> {
            &&& self.level == self.campaign.len()
            &&& game::destructible(self.bricks) == 0
        }
        &&& self.ball.attached ==> self.extra_balls.len() == 0 && self.powerups.len() == 0
        &&& forall|i: int|
            0 <= i < self.extra_balls.len() ==> !(#[trigger] self.extra_balls[i]).attached
    }
}

/// A step only ever takes the game along `Menu -> Playing <-> Paused` and from
/// `Playing` to `GameOver` or `Victory`.
pub proof fn law_states_follow_the_machine<R>(game: GameView<R>, step: Step<R>)
    requires
        game.allows(step),
    ensures
        may_turn_into(game.state, game.after(step).state),
{
}

/// Outside of `Playing` a tick moves nothing: neither the paddle nor a ball,
/// and it neither scores nor reports anything. A finished game stays finished.
pub proof fn law_only_play_moves_anything<R>(game: GameView<R>, input: Input)
    requires
        game.state != GameState::Playing,
    ensures
        !game.in_play(input),
        game.after_tick(input) == (GameView {
            state: game.after_tick(input).state,
            pause_was_held: input.pause,
            ..game
        }),
        game.state == GameState::GameOver || game.state == GameState::Victory
            ==> game.after_tick(input).state == game.state,
{
}

/// Holding the pause key down does nothing more after the first tick.
pub proof fn law_held_pause_key_counts_once<R>(game: GameView<R>, first: Input, second: Input)
    requires
        first.pause,
        second.pause,
        game.state != GameState::Menu,
    ensures
        game.after_tick(first).after_tick(second) == game.after_tick(first),
{
}

/// Pausing and pausing again resumes the game as it was.
pub proof fn law_second_press_resumes<R>(
    game: GameView<R>,
    press: Input,
    release: Input,
    again: Input,
)
    requires
        game.state == GameState::Playing,
        !game.pause_was_held,
        press.pause,
        !release.pause,
        again.pause,
    ensures
        game.after_tick(press).state == GameState::Paused,
        game.after_tick(press).after_tick(release).after_tick(again) == (GameView {
            pause_was_held: true,
            ..game
        }),
{
}

/// A life is lost when the last ball drops out of a board that still has
/// bricks to break, and at no other time.
pub proof fn law_last_ball_costs_the_life<R>(game: GameView<R>, step: Step<R>)
    requires
        game.allows(step),
        game.consistent(),
    ensures
        game.after(step).lives <= game.lives <= game.after(step).lives + 1,
        game.after(step).lives < game.lives <==> {
            &&& step matches Step::Settle(turn, ball, lost, rest)
            &&& game::main_lost_now(turn, lost)
            &&& game.after_move(turn.next, ball, lost).extra_balls.len() == 0
            &&& game::destructible(game.bricks) > 0
        },
{
}

/// Every step keeps the game consistent.
pub proof fn law_steps_keep_games_consistent<R>(game: GameView<R>, step: Step<R>)
    requires
        game.allows(step),
        game.consistent(),
    ensures
        game.after(step).consistent(),
{
    match step {
        Step::Falls(falls) => {
            lemma_fewer_keep_falling(game.powerups, falls);
        },
        _ => {},
    }
}

proof fn lemma_fewer_keep_falling<R>(powerups: Seq<PowerUp<R>>, falls: Seq<Fall<R>>)
    ensures
        game::still_falling(powerups, falls).len() <= falls.len(),
    decreases falls.len(),
{
    if falls.len() > 0 {
        lemma_fewer_keep_falling(powerups, falls.drop_last());
    }
}

/// However it is played from its start, a game stays consistent, and never has
/// more than the lives it started with.
pub proof fn law_played_games_are_consistent<R, F: Fn(i64) -> R>(
    start: GameView<R>,
    convert: F,
    steps: Seq<Step<R>>,
)
    requires
        game::at_start(start, convert),
        start.allows_all(steps),
    ensures
        start.after_all(steps).consistent(),
        start.after_all(steps).lives <= STARTING_LIVES,
    decreases steps.len(),
{
    if steps.len() > 0 {
        law_played_games_are_consistent(start, convert, steps.drop_last());
        let before = start.after_all(steps.drop_last());
        law_steps_keep_games_consistent(before, steps.last());
        law_last_ball_costs_the_life(before, steps.last());
    }
}

/// A step adds to the event list and takes nothing from it.
pub proof fn law_events_are_only_added<R>(game: GameView<R>, step: Step<R>)
    requires
        game.allows(step),
    ensures
        game.events.is_prefix_of(game.after(step).events),
{
}

/// The score never falls, and rises by the points of the brick that breaks.
pub proof fn law_score_rises_by_broken_bricks<R>(game: GameView<R>, step: Step<R>)
    requires
        game.allows(step),
    ensures
        game.after(step).score == game.score + (match step {
            Step::Hit(index, _, _, _) => if game::hit_on(game.bricks[index]) == Hit::Destroyed {
                game.bricks[index].score as int
            } else {
                0
            },
            _ => 0,
        }),
{
}

/// An indestructible brick takes no harm, and what breaks is never one.
pub proof fn law_indestructible_bricks_stay<R>(game: GameView<R>, index: int, other: int)
    requires
        0 <= index < game.bricks.len(),
        0 <= other < game.bricks.len(),
        game.bricks[other].kind == BrickKind::Indestructible,
    ensures
        game.after_hit(index).bricks.contains(game.bricks[other]),
        game::hit_on(game.bricks[other]) == Hit::Bounced,
        game.after_hit(other) == game,
{
    let after = game.after_hit(index).bricks;
    if game::hit_on(game.bricks[index]) == Hit::Destroyed {
        if other < index {
            assert(after[other] == game.bricks[other]);
        } else {
            assert(after[other - 1] == game.bricks[other]);
        }
    } else {
        assert(after[other] == game.bricks[other]);
    }
}

/// Of all bricks that a ball touches it hits the first, and it hits one whenever
/// it touches any.
pub proof fn law_the_first_touched_brick_is_hit(touched: Seq<bool>)
    ensures
        match game::first_marked(touched) {
            Some(index) => {
                &&& 0 <= index < touched.len()
                &&& touched[index]
                &&& forall|i: int| 0 <= i < index ==> !touched[i]
            },
            None => forall|i: int| 0 <= i < touched.len() ==> !touched[i],
        },
    decreases touched.len(),
{
    if touched.len() > 0 {
        let before = touched.drop_last();
        law_the_first_touched_brick_is_hit(before);
        assert(forall|i: int| 0 <= i < before.len() ==> before[i] == touched[i]);
    }
}

/// A fresh normal brick breaks at its first hit and a fresh armored one at its
/// second; the first changes nothing but the hits that it has left.
pub proof fn law_armored_bricks_take_two_hits<R>(game: GameView<R>, index: int)
    requires
        0 <= index < game.bricks.len(),
        game.bricks[index].hits_remaining == game::fresh_hits(game.bricks[index].kind),
    ensures
        game.bricks[index].kind == BrickKind::Normal ==> {
            &&& game::hit_on(game.bricks[index]) == Hit::Destroyed
            &&& game.after_hit(index).bricks == game.bricks.remove(index)
        },
        game.bricks[index].kind == BrickKind::Armored ==> {
            &&& game.after_hit(index) == (GameView {
                bricks: game.bricks.update(index, Brick { hits_remaining: 1, ..game.bricks[index] }),
                ..game
            })
            &&& game::hit_on(game.after_hit(index).bricks[index]) == Hit::Destroyed
            &&& game.after_hit(index).after_hit(index).bricks == game.bricks.remove(index)
        },
{
}

/// Catching a widening again starts its time over and adds nothing to it.
pub proof fn law_widening_refreshes<R>(
    game: GameView<R>,
    first: Effects<R>,
    second: Effects<R>,
    full_time: R,
)
    ensures
        game.after_powerup(PowerUpKind::Widen, first, full_time).after_powerup(
            PowerUpKind::Widen,
            second,
            full_time,
        ) == game.after_powerup(PowerUpKind::Widen, first, full_time),
        game.after_powerup(PowerUpKind::Widen, first, full_time).widen_timer == full_time,
{
}

/// Splitting a ball adds two at its own place and leaves all others alone.
pub proof fn law_multiball_adds_two<R>(game: GameView<R>, effects: Effects<R>, full_time: R)
    ensures
        ({
            let after = game.after_powerup(PowerUpKind::Multiball, effects, full_time);
            &&& after.ball == game.ball
            &&& after.extra_balls.len() == game.extra_balls.len() + 2
            &&& game.extra_balls.is_prefix_of(after.extra_balls)
            &&& forall|i: int|
                game.extra_balls.len() <= i < after.extra_balls.len() ==> {
                    &&& (#[trigger] after.extra_balls[i]).x == game.ball.x
                    &&& after.extra_balls[i].y == game.ball.y
                    &&& after.extra_balls[i].radius == game.ball.radius
                    &&& after.extra_balls[i].attached == game.ball.attached
                }
        }),
{
}

/// Slowing moves no ball and loses none.
pub proof fn law_slowing_moves_nothing<R>(game: GameView<R>, effects: Effects<R>, full_time: R)
    ensures
        ({
            let after = game.after_powerup(PowerUpKind::Slow, effects, full_time);
            &&& after.ball == game::with_velocity(game.ball, (after.ball.vx, after.ball.vy))
            &&& after.extra_balls.len() == game.extra_balls.len()
            &&& forall|i: int|
                0 <= i < after.extra_balls.len() ==> {
                    let ball = #[trigger] after.extra_balls[i];
                    ball == game::with_velocity(game.extra_balls[i], (ball.vx, ball.vy))
                }
        }),
{
}

/// A settled ball hands over to one that the game has, or ends the flight.
/// The next is either a later ball of the same substep or the first of a
/// substep with fewer to follow, so every flight ends.
pub proof fn law_flights_end<R>(
    game: GameView<R>,
    turn: Turn,
    ball: Ball<R>,
    lost: bool,
    rest: Rest<R>,
)
    requires
        game.turn_fits(turn),
        game.extra_balls.len() <= usize::MAX,
    ensures
        ({
            let after = game.after_settling(turn, ball, lost, rest);
            let next = game.next_turn(turn, ball, lost, rest);
            ||| next.next == Mover::Done
            ||| {
                &&& after.turn_fits(next)
                &&& decreases_to!(turn.left as nat, balls_to_move(game, turn)
                    => next.left as nat, balls_to_move(after, next))
            }
        }),
{
}

/// How many balls have yet to move in the current substep.
pub open spec fn balls_to_move<R>(game: GameView<R>, turn: Turn) -> int {
    match turn.next {
        Mover::Main => game.extra_balls.len() as int + 1,
        Mover::Extra(index) => game.extra_balls.len() - index,
        Mover::Done => 0,
    }
}

/// Where the balls of a substep ended up, and which of them dropped out.
pub type Outcomes<R> = Seq<(Ball<R>, bool)>;

/// The balls that did not drop out, in order.
pub open spec fn survivors<R>(outcomes: Outcomes<R>) -> Seq<Ball<R>>
    decreases outcomes.len(),
{
    if outcomes.len() == 0 {
        Seq::empty()
    } else if outcomes[0].1 {
        survivors(outcomes.drop_first())
    } else {
        seq![outcomes[0].0] + survivors(outcomes.drop_first())
    }
}

/// One report for each ball that dropped out.
pub open spec fn losses<R>(outcomes: Outcomes<R>) -> Seq<GameEvent>
    decreases outcomes.len(),
{
    if outcomes.len() == 0 {
        Seq::empty()
    } else if outcomes[0].1 {
        seq![GameEvent::BallLost] + losses(outcomes.drop_first())
    } else {
        losses(outcomes.drop_first())
    }
}

/// The game after the balls of a turn were settled one by one.
pub open spec fn after_settling_all<R>(
    game: GameView<R>,
    turn: Turn,
    outcomes: Outcomes<R>,
    rest: Rest<R>,
) -> GameView<R>
    decreases outcomes.len(),
{
    if outcomes.len() == 0 {
        game
    } else {
        let (ball, lost) = outcomes[0];
        after_settling_all(
            game.after_settling(turn, ball, lost, rest),
            game.next_turn(turn, ball, lost, rest),
            outcomes.drop_first(),
            rest,
        )
    }
}

proof fn lemma_extra_balls_settle<R>(
    game: GameView<R>,
    turn: Turn,
    outcomes: Outcomes<R>,
    rest: Rest<R>,
)
    requires
        turn.next matches Mover::Extra(index) && index + outcomes.len() == game.extra_balls.len(),
        turn.left > 0,
        outcomes.len() > 0,
        game.extra_balls.len() <= usize::MAX,
    ensures
        after_settling_all(game, turn, outcomes, rest) == (GameView {
            extra_balls: game.extra_balls.take(turn.next->Extra_0 as int) + survivors(outcomes),
            events: game.events + losses(outcomes),
            ..game
        }).after_substep(turn.main_lost, rest),
    decreases outcomes.len(),
{
    reveal_with_fuel(after_settling_all, 2);
    let index = turn.next->Extra_0 as int;
    let (ball, lost) = outcomes[0];
    let moved = game.after_move(turn.next, ball, lost);
    let later = outcomes.drop_first();
    assert(lost ==> moved.extra_balls.take(index) == game.extra_balls.take(index));
    assert(!lost ==> moved.extra_balls.take(index + 1) == game.extra_balls.take(index).push(ball));
    let whole = GameView {
        extra_balls: game.extra_balls.take(index) + survivors(outcomes),
        events: game.events + losses(outcomes),
        ..game
    };
    if later.len() == 0 {
        assert(survivors(later) == Seq::<Ball<R>>::empty());
        assert(losses(later) == Seq::<GameEvent>::empty());
        assert(whole == moved);
    } else {
        let next = game.next_turn(turn, ball, lost, rest);
        lemma_extra_balls_settle(moved, next, later, rest);
        assert(whole == (GameView {
            extra_balls: moved.extra_balls.take(next.next->Extra_0 as int) + survivors(later),
            events: moved.events + losses(later),
            ..moved
        }));
    }
}

/// In a substep every ball moves once: the main ball goes where it was sent,
/// of the extra balls those that did not drop out are kept in their order, and
/// each that did is reported. Only then a cleared board or the loss of the
/// main ball is dealt with.
pub proof fn law_every_ball_moves_once<R>(
    game: GameView<R>,
    turn: Turn,
    outcomes: Outcomes<R>,
    rest: Rest<R>,
)
    requires
        turn.next == Mover::Main,
        turn.left > 0,
        outcomes.len() == game.extra_balls.len() + 1,
        game.extra_balls.len() <= usize::MAX,
    ensures
        after_settling_all(game, turn, outcomes, rest) == (GameView {
            ball: outcomes[0].0,
            extra_balls: survivors(outcomes.drop_first()),
            events: game.events + losses(outcomes.drop_first()),
            ..game
        }).after_substep(outcomes[0].1, rest),
{
    reveal_with_fuel(after_settling_all, 2);
    let (ball, lost) = outcomes[0];
    let moved = game.after_move(turn.next, ball, lost);
    let later = outcomes.drop_first();
    let whole = GameView {
        ball,
        extra_balls: survivors(later),
        events: game.events + losses(later),
        ..game
    };
    if later.len() == 0 {
        assert(whole == moved);
    } else {
        let next = game.next_turn(turn, ball, lost, rest);
        lemma_extra_balls_settle(moved, next, later, rest);
        assert(whole == (GameView {
            extra_balls: moved.extra_balls.take(0) + survivors(later),
            events: moved.events + losses(later),
            ..moved
        }));
    }
}

/// The points on a board.
pub open spec fn points(bricks: Seq<Brick>) -> int
    decreases bricks.len(),
{
    if bricks.len() == 0 {
        0
    } else {
        points(bricks.drop_last()) + bricks.last().score
    }
}

/// The points on all boards of a campaign from one of them on.
pub open spec fn points_from(campaign: Seq<Seq<Brick>>, level: int) -> int
    decreases campaign.len() - level,
{
    if level >= campaign.len() {
        0
    } else {
        points(campaign[level]) + points_from(campaign, level + 1)
    }
}

/// Whether nothing is to be had for bricks that cannot be broken.
pub open spec fn fair(bricks: Seq<Brick>) -> bool {
    forall|i: int|
        0 <= i < bricks.len() && (#[trigger] bricks[i]).kind == BrickKind::Indestructible
            ==> bricks[i].score == 0
}

/// Whether the score and the points on this and all later boards add up to
/// those of the whole campaign.
pub open spec fn adds_up<R>(game: GameView<R>) -> bool {
    &&& fair(game.bricks)
    &&& forall|level: int| 0 <= level < game.campaign.len() ==> fair(#[trigger] game.campaign[level])
    &&& game.state == GameState::Menu ==> game.score == 0
    &&& game.score + points(game.bricks) + points_from(game.campaign, game.level as int)
        == points_from(game.campaign, 0)
}

proof fn lemma_points_without(bricks: Seq<Brick>, index: int)
    requires
        0 <= index < bricks.len(),
    ensures
        points(bricks.remove(index)) == points(bricks) - bricks[index].score,
        game::destructible(bricks.remove(index)) == game::destructible(bricks) - if bricks[index].kind
            != BrickKind::Indestructible {
            1int
        } else {
            0int
        },
    decreases bricks.len(),
{
    if index == bricks.len() - 1 {
        assert(bricks.remove(index) == bricks.drop_last());
    } else {
        lemma_points_without(bricks.drop_last(), index);
        assert(bricks.remove(index).drop_last() == bricks.drop_last().remove(index));
        assert(bricks.remove(index).last() == bricks.last());
    }
}

proof fn lemma_points_with_another(bricks: Seq<Brick>, index: int, brick: Brick)
    requires
        0 <= index < bricks.len(),
        brick.score == bricks[index].score,
        brick.kind == bricks[index].kind,
    ensures
        points(bricks.update(index, brick)) == points(bricks),
        game::destructible(bricks.update(index, brick)) == game::destructible(bricks),
    decreases bricks.len(),
{
    if index == bricks.len() - 1 {
        assert(bricks.update(index, brick).drop_last() == bricks.drop_last());
    } else {
        lemma_points_with_another(bricks.drop_last(), index, brick);
        assert(bricks.update(index, brick).drop_last() == bricks.drop_last().update(index, brick));
    }
}

proof fn lemma_no_points_left(bricks: Seq<Brick>)
    requires
        fair(bricks),
        game::destructible(bricks) == 0,
    ensures
        points(bricks) == 0,
    decreases bricks.len(),
{
    if bricks.len() > 0 {
        assert(bricks.last() == bricks[bricks.len() - 1]);
        assert forall|i: int|
            0 <= i < bricks.drop_last().len() && (#[trigger] bricks.drop_last()[i]).kind
                == BrickKind::Indestructible implies bricks.drop_last()[i].score == 0 by {
            assert(bricks.drop_last()[i] == bricks[i]);
        }
        lemma_no_points_left(bricks.drop_last());
    }
}

/// A hit takes one brick off those that have to be broken, if it breaks, and
/// none otherwise.
pub proof fn law_only_breaking_counts<R>(game: GameView<R>, index: int)
    requires
        0 <= index < game.bricks.len(),
    ensures
        game::destructible(game.after_hit(index).bricks) == game::destructible(game.bricks)
            - if game::hit_on(game.bricks[index]) == Hit::Destroyed {
            1int
        } else {
            0int
        },
{
    let brick = game.bricks[index];
    lemma_points_without(game.bricks, index);
    if game::hit_on(brick) == Hit::Cracked {
        lemma_points_with_another(
            game.bricks,
            index,
            Brick { hits_remaining: (brick.hits_remaining - 1) as u8, ..brick },
        );
    }
}

/// No points appear or get lost: what a step takes off the boards it adds to
/// the score.
pub proof fn law_points_are_conserved<R>(game: GameView<R>, step: Step<R>)
    requires
        game.allows(step),
        game.consistent(),
        adds_up(game),
    ensures
        adds_up(game.after(step)),
{
    let after = game.after(step);
    match step {
        Step::Hit(index, _, _, _) => {
            let brick = game.bricks[index];
            lemma_points_without(game.bricks, index);
            if game::hit_on(brick) == Hit::Destroyed {
                assert forall|i: int|
                    0 <= i < after.bricks.len() && (#[trigger] after.bricks[i]).kind
                        == BrickKind::Indestructible implies after.bricks[i].score == 0 by {
                    let was = if i < index {
                        i
                    } else {
                        i + 1
                    };
                    assert(after.bricks[i] == game.bricks[was]);
                }
            } else if game::hit_on(brick) == Hit::Cracked {
                lemma_points_with_another(
                    game.bricks,
                    index,
                    Brick { hits_remaining: (brick.hits_remaining - 1) as u8, ..brick },
                );
            }
        },
        Step::Settle(_, _, _, _) => {
            if game::destructible(game.bricks) == 0 {
                lemma_no_points_left(game.bricks);
            }
        },
        Step::Load(levels) => {
            assert(after.bricks == after.campaign[0]);
            assert forall|level: int| 0 <= level < after.campaign.len() implies fair(
                #[trigger] after.campaign[level],
            ) by {
                assert(after.campaign[level] == game::external_board(levels[level]));
            }
        },
        _ => {},
    }
}

proof fn lemma_built_in_boards_are_fair(index: int)
    requires
        0 <= index < LEVEL_COUNT,
    ensures
        fair(game::built_in_board(index)),
{
}

/// However a game is played from its start, its score and the points still to
/// be had add up to those of its campaign. Whoever wins has them all.
pub proof fn law_victory_takes_all_points<R, F: Fn(i64) -> R>(
    start: GameView<R>,
    convert: F,
    steps: Seq<Step<R>>,
)
    requires
        game::at_start(start, convert),
        start.allows_all(steps),
    ensures
        ({
            let end = start.after_all(steps);
            &&& adds_up(end)
            &&& end.state == GameState::Victory ==> end.score == points_from(end.campaign, 0)
        }),
    decreases steps.len(),
{
    law_played_games_are_consistent(start, convert, steps);
    let end = start.after_all(steps);
    if steps.len() == 0 {
        assert forall|level: int| 0 <= level < start.campaign.len() implies fair(
            #[trigger] start.campaign[level],
        ) by {
            lemma_built_in_boards_are_fair(level);
        }
        lemma_built_in_boards_are_fair(0);
    } else {
        let before = start.after_all(steps.drop_last());
        law_victory_takes_all_points(start, convert, steps.drop_last());
        law_played_games_are_consistent(start, convert, steps.drop_last());
        law_points_are_conserved(before, steps.last());
    }
    if end.state == GameState::Victory {
        lemma_no_points_left(end.bricks);
    }
}

/// How many bricks of a row can be broken.
pub open spec fn breakable(line: Seq<char>) -> int
    decreases line.len(),
{
    if line.len() == 0 {
        0
    } else {
        breakable(line.drop_last()) + if line.last() == '1' || line.last() == '2' {
            1int
        } else {
            0int
        }
    }
}

/// The points of a grid: those of each row for each of its breakable bricks.
pub open spec fn grid_points(grid: Seq<Seq<char>>) -> int
    decreases grid.len(),
{
    if grid.len() == 0 {
        0
    } else {
        grid_points(grid.drop_last()) + breakable(grid.last()) * game::row_points(grid.len() - 1)
    }
}

/// The bricks of some spawns in a grid of so many columns.
spec fn placed(spawns: Seq<BrickSpawn>, columns: int) -> Seq<Brick> {
    spawns.map_values(
        |spawn: BrickSpawn|
            game::brick_for(spawn.x as int, spawn.y as int, spawn.kind, columns),
    )
}

proof fn lemma_points_together(first: Seq<Brick>, second: Seq<Brick>)
    ensures
        points(first + second) == points(first) + points(second),
    decreases second.len(),
{
    if second.len() == 0 {
        assert(first + second == first);
    } else {
        assert((first + second).drop_last() == first + second.drop_last());
        lemma_points_together(first, second.drop_last());
    }
}

proof fn lemma_row_points(line: Seq<char>, row: int, columns: int)
    requires
        0 <= row <= levels::MAX_ROWS,
    ensures
        points(placed(levels::row_spawns(line, row), columns)) == breakable(line)
            * game::row_points(row),
    decreases line.len(),
{
    if line.len() > 0 {
        let before = levels::row_spawns(line.drop_last(), row);
        lemma_row_points(line.drop_last(), row, columns);
        let worth = game::row_points(row);
        assert((breakable(line.drop_last()) + 1) * worth == breakable(line.drop_last()) * worth
            + worth) by (nonlinear_arith);
        if let Some(kind) = levels::cell_kind(line.last()) {
            let spawn = levels::spawn_at(row, line.len() - 1, kind);
            let brick = game::brick_for(spawn.x as int, spawn.y as int, kind, columns);
            assert(placed(before.push(spawn), columns) == placed(before, columns).push(brick));
            assert(placed(before, columns).push(brick).drop_last() == placed(before, columns));
            assert(game::nearest_row(row * BRICK_HEIGHT) == row);
        }
    }
}

proof fn lemma_grid_points(grid: Seq<Seq<char>>, columns: int)
    requires
        grid.len() <= levels::MAX_ROWS,
    ensures
        points(placed(levels::level_spawns(grid), columns)) == grid_points(grid),
    decreases grid.len(),
{
    if grid.len() > 0 {
        let above = levels::level_spawns(grid.drop_last());
        let here = levels::row_spawns(grid.last(), grid.len() - 1);
        lemma_grid_points(grid.drop_last(), columns);
        lemma_row_points(grid.last(), grid.len() - 1, columns);
        assert(placed(above + here, columns) == placed(above, columns) + placed(here, columns));
        lemma_points_together(placed(above, columns), placed(here, columns));
    }
}

proof fn lemma_breakable_rows()
    ensures
        breakable("11111111111111"@) == 14,
        breakable("22222222222222"@) == 14,
        breakable("XXXXXXXXXXXXXX"@) == 0,
        breakable("X111111111111X"@) == 12,
        breakable("X122222222221X"@) == 12,
        breakable("X1..........1X"@) == 2,
{
    reveal_strlit("11111111111111");
    reveal_strlit("22222222222222");
    reveal_strlit("XXXXXXXXXXXXXX");
    reveal_strlit("X111111111111X");
    reveal_strlit("X122222222221X");
    reveal_strlit("X1..........1X");
    reveal_with_fuel(breakable, 15);
}

/// The points of each built-in level.
pub proof fn law_points_of_the_built_in_levels()
    ensures
        points(game::built_in_board(0)) == 3080,
        points(game::built_in_board(1)) == 3500,
        points(game::built_in_board(2)) == 1760,
{
    lemma_breakable_rows();
    reveal_with_fuel(grid_points, 7);
    assert forall|index: int| 0 <= index < LEVEL_COUNT implies points(
        #[trigger] game::built_in_board(index),
    ) == grid_points(levels::level_text(index)) by {
        levels::law_built_in_levels_are_rectangles(index);
        let text = levels::level_text(index);
        lemma_grid_points(text, text[0].len() as int);
        assert(game::built_in_board(index) == placed(
            levels::level_spawns(text),
            text[0].len() as int,
        ));
    }
    let first = levels::level_text(0);
    assert(grid_points(first) == 14 * 70 + 14 * 60 + 14 * 50 + 14 * 40);
    let second = levels::level_text(1);
    assert(grid_points(second) == 14 * 70 + 14 * 60 + 14 * 50 + 14 * 40 + 14 * 30);
    let third = levels::level_text(2);
    assert(grid_points(third) == 12 * 60 + 12 * 50 + 2 * 40 + 12 * 30);
}

/// Winning the built-in campaign scores 8340.
pub proof fn law_built_in_victory_scores_8340<R, F: Fn(i64) -> R>(
    start: GameView<R>,
    convert: F,
    steps: Seq<Step<R>>,
)
    requires
        game::at_start(start, convert),
        start.allows_all(steps),
        start.after_all(steps).campaign == game::built_in_campaign(),
        start.after_all(steps).state == GameState::Victory,
    ensures
        start.after_all(steps).score == 8340,
{
    law_victory_takes_all_points(start, convert, steps);
    law_points_of_the_built_in_levels();
    reveal_with_fuel(points_from, 4);
}

/// The points of a row lie between 10 and 70, and never rise downwards.
pub proof fn law_rows_score_10_to_70(row: int, below: int)
    requires
        0 <= row <= below,
    ensures
        10 <= game::row_points(below) <= game::row_points(row) <= 70,
        game::row_points(0) == 70,
{
}

/// When a substep ends on a board with nothing left to break, the next level
/// starts with the ball on the paddle, or the game is won after the last. No
/// life is lost then, even if the main ball dropped out.
pub proof fn law_cleared_boards_lead_on<R>(game: GameView<R>, main_lost: bool, rest: Rest<R>)
    requires
        game.consistent(),
        game.state == GameState::Playing,
        game::destructible(game.bricks) == 0,
    ensures
        ({
            let after = game.after_substep(main_lost, rest);
            &&& after.lives == game.lives
            &&& after.events[game.events.len() as int] == GameEvent::LevelCleared
            &&& game.level < game.campaign.len() ==> {
                &&& after.state == GameState::Playing
                &&& after.level == game.level + 1
                &&& after.bricks == game.campaign[game.level as int]
                &&& after.ball == game::parked(game.paddle, rest)
            }
            &&& game.level == game.campaign.len() ==> {
                &&& after.state == GameState::Victory
                &&& after.events.last() == GameEvent::Victory
            }
        }),
{
}

/// Whether a brick lies within the playfield.
pub open spec fn in_playfield(brick: Brick) -> bool {
    &&& 0 <= 2 * brick.x - brick.width
    &&& 2 * brick.x + brick.width <= 2 * PLAYFIELD_WIDTH
    &&& 0 <= 2 * brick.y - brick.height
    &&& 2 * brick.y + brick.height <= 2 * PLAYFIELD_HEIGHT
}

/// Whether two bricks do not overlap.
pub open spec fn apart(first: Brick, second: Brick) -> bool {
    ||| first.width + second.width <= 2 * (first.x - second.x)
    ||| first.width + second.width <= 2 * (second.x - first.x)
    ||| first.height + second.height <= 2 * (first.y - second.y)
    ||| first.height + second.height <= 2 * (second.y - first.y)
}

proof fn lemma_spawn_in_grid(index: int, i: int)
    requires
        0 <= index < LEVEL_COUNT,
        0 <= i < levels::level_spawns(levels::level_text(index)).len(),
    ensures
        ({
            let text = levels::level_text(index);
            let spawn = levels::level_spawns(text)[i];
            &&& 0 <= spawn.x
            &&& spawn.x + BRICK_WIDTH <= text[0].len() * BRICK_WIDTH
            &&& 0 <= spawn.y
            &&& spawn.y + BRICK_HEIGHT <= text.len() * BRICK_HEIGHT
        }),
{
    let text = levels::level_text(index);
    let spawn = levels::level_spawns(text)[i];
    levels::law_built_in_levels_are_rectangles(index);
    levels::law_spawns_are_the_occupied_cells(text);
    let (row, col) = choose|row: int, col: int|
        0 <= row < text.len() && 0 <= col < text[row].len() && spawn == levels::spawn_at(
            row,
            col,
            #[trigger] levels::cell_kind(text[row][col])->0,
        );
    assert(text[row].len() == text[0].len());
}

/// The bricks of a built-in level lie within the playfield, and no two of them
/// overlap.
pub proof fn law_built_in_bricks_do_not_overlap(index: int, i: int, j: int)
    requires
        0 <= index < LEVEL_COUNT,
        0 <= i < game::built_in_board(index).len(),
        0 <= j < game::built_in_board(index).len(),
    ensures
        in_playfield(game::built_in_board(index)[i]),
        i != j ==> apart(game::built_in_board(index)[i], game::built_in_board(index)[j]),
{
    levels::law_built_in_levels_are_rectangles(index);
    let text = levels::level_text(index);
    lemma_spawn_in_grid(index, i);
    lemma_spawn_in_grid(index, j);
    levels::law_spawns_are_the_occupied_cells(text);
    let spawns = levels::level_spawns(text);
    if i < j {
        assert(levels::reads_before(spawns[i], spawns[j]));
    } else if j < i {
        assert(levels::reads_before(spawns[j], spawns[i]));
    }
}

} // verus!
