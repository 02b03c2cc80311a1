//! One whole tick, from the state machine to the caught capsules, and what
//! holds of it however the front end moves the bodies.

use vstd::prelude::*;

use crate::events::{GameEvent, PowerUpKind};
use crate::game;
use crate::game::{
    Ball, Effects, Fall, GameState, GameView, Hit, Input, Mover, Play, Rest, Turn,
};
use crate::game_laws;
use crate::game_laws::Step;

verus! {

/// What becomes of the next ball of a turn.
pub struct Move<R> {
    /// The brick that it hits, if any, and what that brick drops and where.
    pub hit: Option<(int, Option<PowerUpKind>, R, R)>,
    /// Where it ends up.
    pub ball: Ball<R>,
    /// Whether it drops out.
    pub lost: bool,
    /// How a ball rests on the paddle at that moment.
    pub rest: Rest<R>,
}

/// All that the front end adds to one tick.
pub struct TickPlan<R> {
    pub input: Input,
    pub play: Play<R>,
    /// How wide the paddle is.
    pub width: R,
    /// How many substeps the flight is cut into.
    pub substeps: u32,
    /// The balls of the flight, one after the other.
    pub moves: Seq<Move<R>>,
    pub falls: Seq<Fall<R>>,
    /// The numbers behind each caught power-up, and how long a widening lasts.
    pub effects: Seq<(Effects<R>, R)>,
}

impl<R> GameView<R> {
    /// After a ball hit a brick, or none.
    pub open spec fn after_touching(
        self,
        hit: Option<(int, Option<PowerUpKind>, R, R)>,
    ) -> GameView<R> {
        match hit {
            Some((index, drop, x, y)) => self.after_hit(index).after_drop(drop, x, y),
            None => self,
        }
    }

    /// Whether a ball can hit that brick: there is one, its points fit the
    /// score, and it drops something only if it breaks.
    pub open spec fn can_touch(self, hit: Option<(int, Option<PowerUpKind>, R, R)>) -> bool {
        match hit {
            Some((index, drop, _, _)) => {
                &&& 0 <= index < self.bricks.len()
                &&& self.score_fits(Some(index))
                &&& drop is Some ==> game::hit_on(self.bricks[index]) == Hit::Destroyed
            },
            None => true,
        }
    }

    /// Whether the moves are a whole flight from this turn on: each is one of
    /// a ball that the game has, and the last ends the flight.
    pub open spec fn flight_fits(self, turn: Turn, moves: Seq<Move<R>>) -> bool
        decreases moves.len(),
    {
        if moves.len() == 0 {
            turn.next == Mover::Done
        } else {
            let touched = self.after_touching(moves[0].hit);
            &&& self.can_touch(moves[0].hit)
            &&& touched.turn_fits(turn)
            &&& touched.after_settling(
                turn,
                moves[0].ball,
                moves[0].lost,
                moves[0].rest,
            ).flight_fits(
                touched.next_turn(turn, moves[0].ball, moves[0].lost, moves[0].rest),
                moves.drop_first(),
            )
        }
    }

    /// After a flight.
    pub open spec fn after_flight(self, turn: Turn, moves: Seq<Move<R>>) -> GameView<R>
        decreases moves.len(),
    {
        if moves.len() == 0 {
            self
        } else {
            let touched = self.after_touching(moves[0].hit);
            touched.after_settling(
                turn,
                moves[0].ball,
                moves[0].lost,
                moves[0].rest,
            ).after_flight(
                touched.next_turn(turn, moves[0].ball, moves[0].lost, moves[0].rest),
                moves.drop_first(),
            )
        }
    }

    /// Whether there are numbers for each caught power-up and each ball.
    pub open spec fn effects_fit(self, kinds: Seq<PowerUpKind>, effects: Seq<(Effects<R>, R)>) -> bool
        decreases kinds.len(),
    {
        &&& effects.len() == kinds.len()
        &&& kinds.len() > 0 ==> {
            &&& effects[0].0.slowed@.len() == self.extra_balls.len() + 1
            &&& self.after_powerup(kinds[0], effects[0].0, effects[0].1).effects_fit(
                kinds.drop_first(),
                effects.drop_first(),
            )
        }
    }

    /// After power-ups took effect, one after the other.
    pub open spec fn after_powerups(
        self,
        kinds: Seq<PowerUpKind>,
        effects: Seq<(Effects<R>, R)>,
    ) -> GameView<R>
        decreases kinds.len(),
    {
        if kinds.len() == 0 {
            self
        } else {
            self.after_powerup(kinds[0], effects[0].0, effects[0].1).after_powerups(
                kinds.drop_first(),
                effects.drop_first(),
            )
        }
    }

    /// Whether the balls fly in a tick with this input.
    pub open spec fn flies(self, input: Input) -> bool {
        self.in_play(input) && !self.ball.attached
    }

    /// The game in a tick once the balls have flown.
    pub open spec fn flown(self, plan: TickPlan<R>) -> GameView<R> {
        self.after_tick(plan.input).after_play(plan.input, plan.play, plan.width).after_flight(
            game::first_turn(plan.substeps),
            plan.moves,
        )
    }

    /// Whether a plan is one for the next tick of this game.
    pub open spec fn plan_fits(self, plan: TickPlan<R>) -> bool {
        let flown = self.flown(plan);
        self.flies(plan.input) ==> {
            &&& self.after_tick(plan.input).after_play(plan.input, plan.play, plan.width).flight_fits(
                game::first_turn(plan.substeps),
                plan.moves,
            )
            &&& plan.falls.len() == flown.powerups.len()
            &&& flown.after_falls(plan.falls).effects_fit(
                game::caught_kinds(flown.powerups, plan.falls),
                plan.effects,
            )
        }
    }

    /// After one whole tick.
    pub open spec fn after_whole_tick(self, plan: TickPlan<R>) -> GameView<R> {
        let ticked = self.after_tick(plan.input);
        if self.flies(plan.input) {
            let flown = self.flown(plan);
            flown.after_falls(plan.falls).after_powerups(
                game::caught_kinds(flown.powerups, plan.falls),
                plan.effects,
            )
        } else if self.in_play(plan.input) {
            ticked.after_play(plan.input, plan.play, plan.width)
        } else {
            ticked
        }
    }
}

/// How often an event is on the list from position `from` on.
pub open spec fn times(events: Seq<GameEvent>, from: int, event: GameEvent) -> int
    decreases events.len(),
{
    if events.len() <= from || events.len() == 0 {
        0
    } else {
        times(events.drop_last(), from, event) + if events.last() == event {
            1int
        } else {
            0int
        }
    }
}

/// An event counts at least once exactly if it is on the list from that
/// position on.
pub proof fn law_counted_events_are_on_the_list(
    events: Seq<GameEvent>,
    from: int,
    event: GameEvent,
)
    requires
        0 <= from,
    ensures
        0 <= times(events, from, event),
        0 < times(events, from, event) <==> exists|i: int|
            from <= i < events.len() && events[i] == event,
    decreases events.len(),
{
    if from < events.len() {
        let before = events.drop_last();
        law_counted_events_are_on_the_list(before, from, event);
        if 0 < times(before, from, event) {
            let i = choose|i: int| from <= i < before.len() && before[i] == event;
            assert(events[i] == event);
        }
        if events.last() == event {
            assert(events[events.len() - 1] == event);
        }
        assert forall|i: int| from <= i < events.len() && events[i] == event implies 0 < times(
            events,
            from,
            event,
        ) by {
            if i < before.len() {
                assert(before[i] == event);
            }
        }
    }
}

/// One if it holds, else zero.
pub open spec fn once(holds: bool) -> int {
    if holds {
        1
    } else {
        0
    }
}

/// What the list of events says of how one game became another: a life less
/// is reported once, and so are the end of the game, the victory, and each
/// level that was cleared.
pub open spec fn honest<R>(before: GameView<R>, after: GameView<R>) -> bool {
    let from = before.events.len() as int;
    let ended = before.state != GameState::GameOver && after.state == GameState::GameOver;
    let won = before.state != GameState::Victory && after.state == GameState::Victory;
    &&& before.events.is_prefix_of(after.events)
    &&& times(after.events, from, GameEvent::LifeLost) == before.lives - after.lives
    &&& times(after.events, from, GameEvent::GameOver) == once(ended)
    &&& times(after.events, from, GameEvent::Victory) == once(won)
    &&& times(after.events, from, GameEvent::LevelCleared) == after.level - before.level + once(won)
}

/// What cannot happen twice, or together, or at all, while one game became
/// another.
pub open spec fn moderate<R>(before: GameView<R>, after: GameView<R>) -> bool {
    &&& before.score <= after.score
    &&& before.lives - 1 <= after.lives <= before.lives
    &&& before.level <= after.level <= before.level + 1
    &&& after.lives == before.lives || after.level == before.level
    &&& after.campaign == before.campaign
    &&& after.paddle.y == before.paddle.y
    &&& after.paddle.height == before.paddle.height
}

/// Whether a board was cleared while one game became another.
pub open spec fn cleared<R>(before: GameView<R>, after: GameView<R>) -> bool {
    ||| before.level < after.level
    ||| before.state != GameState::Victory && after.state == GameState::Victory
}

/// How many balls drop out in some moves.
pub open spec fn dropped<R>(moves: Seq<Move<R>>) -> int
    decreases moves.len(),
{
    if moves.len() == 0 {
        0
    } else {
        once(moves[0].lost) + dropped(moves.drop_first())
    }
}

impl<R> GameView<R> {
    /// Whether the main ball drops out in the last substep of a flight.
    pub open spec fn main_lost_at_last(self, turn: Turn, moves: Seq<Move<R>>) -> bool
        decreases moves.len(),
    {
        if moves.len() == 0 {
            false
        } else if moves.len() == 1 {
            game::main_lost_now(turn, moves[0].lost)
        } else {
            let touched = self.after_touching(moves[0].hit);
            touched.after_settling(
                turn,
                moves[0].ball,
                moves[0].lost,
                moves[0].rest,
            ).main_lost_at_last(
                touched.next_turn(turn, moves[0].ball, moves[0].lost, moves[0].rest),
                moves.drop_first(),
            )
        }
    }
}

proof fn lemma_times_add(first: Seq<GameEvent>, second: Seq<GameEvent>, from: int, event: GameEvent)
    requires
        first.is_prefix_of(second),
        0 <= from <= first.len(),
    ensures
        times(second, from, event) == times(first, from, event) + times(
            second,
            first.len() as int,
            event,
        ),
    decreases second.len(),
{
    if second.len() == first.len() {
        assert(second == first);
    } else {
        assert(first.is_prefix_of(second.drop_last()));
        lemma_times_add(first, second.drop_last(), from, event);
    }
}

/// Two stretches of a tick, of which the first keeps the lives, the level and
/// the state, make one.
proof fn lemma_stretches_join<R>(before: GameView<R>, middle: GameView<R>, after: GameView<R>)
    requires
        honest(before, middle),
        moderate(before, middle),
        honest(middle, after),
        moderate(middle, after),
        ({
            ||| before.lives == middle.lives && before.level == middle.level && before.state
                == middle.state
            ||| middle.lives == after.lives && middle.level == after.level && middle.state
                == after.state
        }),
    ensures
        honest(before, after),
        moderate(before, after),
{
    let from = before.events.len() as int;
    lemma_times_add(middle.events, after.events, from, GameEvent::LifeLost);
    lemma_times_add(middle.events, after.events, from, GameEvent::GameOver);
    lemma_times_add(middle.events, after.events, from, GameEvent::Victory);
    lemma_times_add(middle.events, after.events, from, GameEvent::LevelCleared);
}

/// Adds one event to the list, and to the count of that event.
proof fn lemma_times_push(events: Seq<GameEvent>, from: int, more: GameEvent)
    requires
        0 <= from <= events.len(),
    ensures
        events.is_prefix_of(events.push(more)),
        forall|event: GameEvent|
            #[trigger] times(events.push(more), from, event) == times(events, from, event) + once(
                more == event,
            ),
{
    assert(events.push(more).drop_last() == events);
}

/// One hit changes neither the lives, nor the level, nor the state.
proof fn lemma_touching<R>(game: GameView<R>, hit: Option<(int, Option<PowerUpKind>, R, R)>)
    requires
        game.can_touch(hit),
    ensures
        ({
            let after = game.after_touching(hit);
            &&& honest(game, after)
            &&& moderate(game, after)
            &&& times(after.events, game.events.len() as int, GameEvent::BallLost) == 0
            &&& after == (GameView {
                bricks: after.bricks,
                score: after.score,
                events: after.events,
                powerups: after.powerups,
                ..game
            })
        }),
{
    if let Some((index, drop, x, y)) = hit {
        let struck = game.after_hit(index);
        let from = game.events.len() as int;
        if game::hit_on(game.bricks[index]) == Hit::Destroyed {
            let once_more = game.events.push(GameEvent::BrickDestroyed);
            lemma_times_push(game.events, from, GameEvent::BrickDestroyed);
            lemma_times_push(once_more, from, struck.events.last());
            assert(struck.events == once_more.push(struck.events.last()));
        }
        if let Some(kind) = drop {
            lemma_times_push(struck.events, from, GameEvent::PowerUpSpawned(kind));
        }
    }
}

/// A moved ball changes neither the lives, nor the level, nor the state.
proof fn lemma_moving<R>(game: GameView<R>, mover: Mover, ball: Ball<R>, lost: bool)
    ensures
        ({
            let after = game.after_move(mover, ball, lost);
            &&& honest(game, after)
            &&& moderate(game, after)
            &&& times(after.events, game.events.len() as int, GameEvent::BallLost) == once(
                mover is Extra && lost,
            )
            &&& after == (GameView {
                ball: after.ball,
                extra_balls: after.extra_balls,
                events: after.events,
                ..game
            })
        }),
{
    lemma_times_push(game.events, game.events.len() as int, GameEvent::BallLost);
}

/// The end of a substep clears the level, wins, costs a life or ends the game,
/// and says so, or leaves all of this as it was.
proof fn lemma_substep<R>(game: GameView<R>, main_lost: bool, rest: Rest<R>)
    requires
        game.state == GameState::Playing,
        game.lives > 0,
        game.campaign.len() <= usize::MAX,
    ensures
        ({
            let after = game.after_substep(main_lost, rest);
            &&& honest(game, after)
            &&& moderate(game, after)
            &&& times(after.events, game.events.len() as int, GameEvent::BallLost) == once(
                main_lost && !cleared(game, after),
            )
            &&& cleared(game, after) ==> after.state == GameState::Victory || after.ball.attached
            &&& after.state == GameState::GameOver <==> after.lives == 0
            &&& after.state == GameState::Playing && !after.ball.attached ==> {
                &&& after.lives == game.lives
                &&& after.level == game.level
            }
        }),
{
    let from = game.events.len() as int;
    if game::destructible(game.bricks) == 0 {
        lemma_times_push(game.events, from, GameEvent::LevelCleared);
        lemma_times_push(
            game.events.push(GameEvent::LevelCleared),
            from,
            GameEvent::Victory,
        );
    } else if main_lost {
        let lost = game.events.push(GameEvent::BallLost);
        lemma_times_push(game.events, from, GameEvent::BallLost);
        lemma_times_push(lost, from, GameEvent::LifeLost);
        lemma_times_push(lost.push(GameEvent::LifeLost), from, GameEvent::GameOver);
    }
}

/// One settled ball leaves a flight that goes on with the lives, the level and
/// the state as they were, or ends it.
proof fn lemma_settling<R>(
    game: GameView<R>,
    turn: Turn,
    ball: Ball<R>,
    lost: bool,
    rest: Rest<R>,
)
    requires
        game.state == GameState::Playing,
        game.lives > 0,
        game.campaign.len() <= usize::MAX,
        game.turn_fits(turn),
    ensures
        ({
            let after = game.after_settling(turn, ball, lost, rest);
            let next = game.next_turn(turn, ball, lost, rest);
            &&& honest(game, after)
            &&& moderate(game, after)
            &&& after.state == GameState::GameOver <==> after.lives == 0
            &&& next.next != Mover::Done ==> {
                &&& after.state == GameState::Playing
                &&& after.lives == game.lives
                &&& after.level == game.level
            }
        }),
{
    let moved = game.after_move(turn.next, ball, lost);
    let main_lost = game::main_lost_now(turn, lost);
    lemma_moving(game, turn.next, ball, lost);
    lemma_substep(moved, main_lost, rest);
    lemma_stretches_join(game, moved, moved.after_substep(main_lost, rest));
}

/// A flight tells what it did, and does no more than one thing.
proof fn lemma_flight<R>(game: GameView<R>, turn: Turn, moves: Seq<Move<R>>)
    requires
        game.campaign.len() <= usize::MAX,
        turn.next != Mover::Done ==> game.state == GameState::Playing && game.lives > 0,
        game.flight_fits(turn, moves),
    ensures
        ({
            let after = game.after_flight(turn, moves);
            &&& honest(game, after)
            &&& moderate(game, after)
            &&& if turn.next == Mover::Done {
                after == game
            } else {
                after.state == GameState::GameOver <==> after.lives == 0
            }
        }),
    decreases moves.len(),
{
    if moves.len() > 0 {
        let step = moves[0];
        let touched = game.after_touching(step.hit);
        let settled = touched.after_settling(turn, step.ball, step.lost, step.rest);
        let next = touched.next_turn(turn, step.ball, step.lost, step.rest);
        lemma_touching(game, step.hit);
        lemma_settling(touched, turn, step.ball, step.lost, step.rest);
        lemma_flight(settled, next, moves.drop_first());
        lemma_stretches_join(game, touched, settled);
        lemma_stretches_join(game, settled, game.after_flight(turn, moves));
    }
}

/// Power-ups change the balls and the widening only.
proof fn lemma_powerups<R>(game: GameView<R>, kinds: Seq<PowerUpKind>, effects: Seq<(Effects<R>, R)>)
    ensures
        ({
            let after = game.after_powerups(kinds, effects);
            after == (GameView {
                ball: after.ball,
                extra_balls: after.extra_balls,
                widen_timer: after.widen_timer,
                ..game
            })
        }),
    decreases kinds.len(),
{
    if kinds.len() > 0 {
        lemma_powerups(
            game.after_powerup(kinds[0], effects[0].0, effects[0].1),
            kinds.drop_first(),
            effects.drop_first(),
        );
    }
}

/// No report of a catch is one of the others.
proof fn lemma_catches(events: Seq<GameEvent>, kinds: Seq<PowerUpKind>)
    ensures
        ({
            let reports = kinds.map_values(|kind: PowerUpKind| GameEvent::PowerUpCaught(kind));
            let from = events.len() as int;
            &&& times(events + reports, from, GameEvent::LifeLost) == 0
            &&& times(events + reports, from, GameEvent::GameOver) == 0
            &&& times(events + reports, from, GameEvent::Victory) == 0
            &&& times(events + reports, from, GameEvent::LevelCleared) == 0
            &&& times(events + reports, from, GameEvent::BallLost) == 0
        }),
    decreases kinds.len(),
{
    let reports = kinds.map_values(|kind: PowerUpKind| GameEvent::PowerUpCaught(kind));
    if kinds.len() > 0 {
        let before = kinds.drop_last();
        lemma_catches(events, before);
        assert((events + reports).drop_last() == events + before.map_values(
            |kind: PowerUpKind| GameEvent::PowerUpCaught(kind),
        ));
        assert((events + reports).last() == GameEvent::PowerUpCaught(kinds.last()));
    }
}

/// Of one whole tick, however the bodies move in it: the score never falls, at
/// most one life is lost and at most one level is cleared, and not both. A lost
/// life, the end of the game, a cleared level and the victory are each reported
/// exactly when they happen, once, and no report is taken back. The game ends
/// when no life is left. The paddle keeps its height above the bottom edge.
pub proof fn law_ticks_report_what_they_do<R>(game: GameView<R>, plan: TickPlan<R>)
    requires
        game.state == GameState::Playing ==> game.lives > 0,
        game.campaign.len() <= usize::MAX,
        game.plan_fits(plan),
    ensures
        ({
            let after = game.after_whole_tick(plan);
            &&& honest(game, after)
            &&& moderate(game, after)
            &&& game.state == GameState::Playing ==> (after.state == GameState::GameOver
                <==> after.lives == 0)
        }),
{
    if game.flies(plan.input) {
        let played = game.after_tick(plan.input).after_play(plan.input, plan.play, plan.width);
        let flown = game.flown(plan);
        let fallen = flown.after_falls(plan.falls);
        let kinds = game::caught_kinds(flown.powerups, plan.falls);
        lemma_flight(played, game::first_turn(plan.substeps), plan.moves);
        lemma_catches(flown.events, kinds);
        lemma_powerups(fallen, kinds, plan.effects);
        lemma_stretches_join(played, flown, fallen);
    }
}

/// How many reports of a lost ball one settled ball adds. That of the main ball
/// waits for the end of the substep, and is not made if the board is cleared.
proof fn lemma_settling_reports_losses<R>(
    game: GameView<R>,
    turn: Turn,
    ball: Ball<R>,
    lost: bool,
    rest: Rest<R>,
)
    requires
        game.state == GameState::Playing,
        game.lives > 0,
        game.campaign.len() <= usize::MAX,
        game.turn_fits(turn),
    ensures
        ({
            let after = game.after_settling(turn, ball, lost, rest);
            let next = game.next_turn(turn, ball, lost, rest);
            let main_lost = game::main_lost_now(turn, lost);
            let counted = times(after.events, game.events.len() as int, GameEvent::BallLost);
            &&& cleared(game, after) ==> next.next == Mover::Done
            &&& if next.next is Extra {
                &&& counted == once(turn.next is Extra && lost)
                &&& next.main_lost == main_lost
            } else {
                counted == once(turn.next is Extra && lost) + once(
                    main_lost && !cleared(game, after),
                )
            }
        }),
{
    let moved = game.after_move(turn.next, ball, lost);
    let main_lost = game::main_lost_now(turn, lost);
    let ended = moved.after_substep(main_lost, rest);
    lemma_moving(game, turn.next, ball, lost);
    lemma_substep(moved, main_lost, rest);
    lemma_times_add(
        moved.events,
        ended.events,
        game.events.len() as int,
        GameEvent::BallLost,
    );
}

/// Whether the main ball dropped out in a substep that is still under way.
spec fn loss_pending(turn: Turn) -> bool {
    turn.next is Extra && turn.main_lost
}

proof fn lemma_moves_run_out_with_the_flight<R>(
    game: GameView<R>,
    turn: Turn,
    moves: Seq<Move<R>>,
)
    requires
        game.flight_fits(turn, moves),
    ensures
        moves.len() == 0 <==> turn.next == Mover::Done,
{
}

proof fn lemma_flight_reports_losses<R>(game: GameView<R>, turn: Turn, moves: Seq<Move<R>>)
    requires
        game.campaign.len() <= usize::MAX,
        turn.next != Mover::Done ==> game.state == GameState::Playing && game.lives > 0,
        game.flight_fits(turn, moves),
    ensures
        ({
            let after = game.after_flight(turn, moves);
            times(after.events, game.events.len() as int, GameEvent::BallLost) == dropped(moves)
                + once(loss_pending(turn)) - once(
                cleared(game, after) && game.main_lost_at_last(turn, moves),
            )
        }),
    decreases moves.len(),
{
    if moves.len() > 0 {
        let step = moves[0];
        let later = moves.drop_first();
        let touched = game.after_touching(step.hit);
        let settled = touched.after_settling(turn, step.ball, step.lost, step.rest);
        let next = touched.next_turn(turn, step.ball, step.lost, step.rest);
        let after = game.after_flight(turn, moves);
        let from = game.events.len() as int;
        lemma_touching(game, step.hit);
        lemma_settling(touched, turn, step.ball, step.lost, step.rest);
        lemma_settling_reports_losses(touched, turn, step.ball, step.lost, step.rest);
        lemma_flight(settled, next, later);
        lemma_flight_reports_losses(settled, next, later);
        lemma_times_add(touched.events, settled.events, from, GameEvent::BallLost);
        lemma_times_add(settled.events, after.events, from, GameEvent::BallLost);
        lemma_moves_run_out_with_the_flight(settled, next, later);
    }
}

/// A tick reports each ball that dropped out in it, once, but for a main ball
/// that dropped out in the very substep in which the board was cleared.
pub proof fn law_ticks_report_every_lost_ball<R>(game: GameView<R>, plan: TickPlan<R>)
    requires
        game.state == GameState::Playing ==> game.lives > 0,
        game.campaign.len() <= usize::MAX,
        game.plan_fits(plan),
    ensures
        ({
            let played = game.after_tick(plan.input).after_play(plan.input, plan.play, plan.width);
            let after = game.after_whole_tick(plan);
            let counted = times(after.events, game.events.len() as int, GameEvent::BallLost);
            counted == if !game.flies(plan.input) {
                0
            } else if cleared(game, after) && played.main_lost_at_last(
                game::first_turn(plan.substeps),
                plan.moves,
            ) {
                dropped(plan.moves) - 1
            } else {
                dropped(plan.moves)
            }
        }),
{
    if game.flies(plan.input) {
        let played = game.after_tick(plan.input).after_play(plan.input, plan.play, plan.width);
        let flown = game.flown(plan);
        let fallen = flown.after_falls(plan.falls);
        let kinds = game::caught_kinds(flown.powerups, plan.falls);
        lemma_flight(played, game::first_turn(plan.substeps), plan.moves);
        lemma_flight_reports_losses(played, game::first_turn(plan.substeps), plan.moves);
        lemma_catches(flown.events, kinds);
        lemma_powerups(fallen, kinds, plan.effects);
        lemma_times_add(
            flown.events,
            fallen.events,
            game.events.len() as int,
            GameEvent::BallLost,
        );
    }
}

/// Flights keep the game consistent.
proof fn lemma_flight_keeps_game_consistent<R>(
    game: GameView<R>,
    turn: Turn,
    moves: Seq<Move<R>>,
)
    requires
        game.consistent(),
        turn.next != Mover::Done ==> game.state == GameState::Playing && !game.ball.attached,
        game.flight_fits(turn, moves),
        forall|i: int| 0 <= i < moves.len() ==> !(#[trigger] moves[i]).ball.attached,
    ensures
        game.after_flight(turn, moves).consistent(),
    decreases moves.len(),
{
    if moves.len() > 0 {
        let step = moves[0];
        let touched = game.after_touching(step.hit);
        let later = moves.drop_first();
        if let Some((index, drop, x, y)) = step.hit {
            game_laws::law_steps_keep_games_consistent(game, Step::Hit(index, drop, x, y));
        }
        game_laws::law_steps_keep_games_consistent(
            touched,
            Step::Settle(turn, step.ball, step.lost, step.rest),
        );
        assert forall|i: int| 0 <= i < later.len() implies !(#[trigger] later[i]).ball.attached by {
            assert(later[i] == moves[i + 1]);
        }
        lemma_flight_keeps_game_consistent(
            touched.after_settling(turn, step.ball, step.lost, step.rest),
            touched.next_turn(turn, step.ball, step.lost, step.rest),
            later,
        );
    }
}

/// Power-ups that are caught with the ball in flight keep the game consistent.
proof fn lemma_powerups_keep_game_consistent<R>(
    game: GameView<R>,
    kinds: Seq<PowerUpKind>,
    effects: Seq<(Effects<R>, R)>,
)
    requires
        game.consistent(),
        kinds.len() > 0 ==> !game.ball.attached,
        game.effects_fit(kinds, effects),
    ensures
        game.after_powerups(kinds, effects).consistent(),
    decreases kinds.len(),
{
    if kinds.len() > 0 {
        game_laws::law_steps_keep_games_consistent(
            game,
            Step::Catch(kinds[0], effects[0].0, effects[0].1),
        );
        lemma_powerups_keep_game_consistent(
            game.after_powerup(kinds[0], effects[0].0, effects[0].1),
            kinds.drop_first(),
            effects.drop_first(),
        );
    }
}

/// A whole tick keeps the game consistent, as long as the front end only moves
/// balls that are in flight and leaves them so.
pub proof fn law_ticks_keep_games_consistent<R>(game: GameView<R>, plan: TickPlan<R>)
    requires
        game.consistent(),
        game.plan_fits(plan),
        forall|i: int| 0 <= i < plan.moves.len() ==> !(#[trigger] plan.moves[i]).ball.attached,
    ensures
        game.after_whole_tick(plan).consistent(),
{
    if game.flies(plan.input) {
        let played = game.after_tick(plan.input).after_play(plan.input, plan.play, plan.width);
        let flown = game.flown(plan);
        let kinds = game::caught_kinds(flown.powerups, plan.falls);
        lemma_flight_keeps_game_consistent(
            played,
            game::first_turn(plan.substeps),
            plan.moves,
        );
        game_laws::law_steps_keep_games_consistent(flown, Step::Falls(plan.falls));
        if flown.ball.attached {
            assert(kinds.len() == 0);
        }
        lemma_powerups_keep_game_consistent(
            flown.after_falls(plan.falls),
            kinds,
            plan.effects,
        );
    }
}

} // verus!
