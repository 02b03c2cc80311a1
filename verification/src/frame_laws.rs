//! What a frame of the flat view holds of everything that is to be seen, and
//! where in it.

use vstd::prelude::*;
use vstd::std_specs::convert::FromSpec;

use crate::assets::SpriteId;
use crate::events::PowerUpKind;
use crate::game::{Ball, Brick, Game, GameState};
use crate::levels::BrickKind;
use crate::order;
use crate::render;
use crate::render::{Align, Alpha, FrameDiff, FrameTracker, Line, Look, RenderState, Shape};
use crate::text;

verus! {

/// The smaller of two numbers.
pub open spec fn least(a: int, b: int) -> int {
    if a < b {
        a
    } else {
        b
    }
}

/// Positions in a frame where each kind of quad begins: the balls behind the
/// trail, the bricks behind the ball, and so on to the end.
pub struct Layout {
    pub ball: int,
    pub bricks: int,
    pub ghosts: int,
    pub extras: int,
    pub capsules: int,
    pub scrim: int,
    pub lives: int,
    pub end: int,
}

/// The layout of a frame. At most 112 bricks, 16 extra balls, 16 capsules and
/// ten lives are drawn; the scrim is there unless the game is played.
pub open spec fn layout<R>(game: Game<R>, trail: Seq<(R, R)>, diff: FrameDiff) -> Layout {
    let ball = 1 + trail.len() as int;
    let bricks = ball + 1;
    let ghosts = bricks + least(game.bricks@.len() as int, 112);
    let extras = ghosts + diff.ghosts@.len();
    let capsules = extras + least(game.extra_balls@.len() as int, 16);
    let scrim = capsules + least(game.powerups@.len() as int, 16);
    let lives = scrim + if game.state == GameState::Playing {
        0int
    } else {
        1int
    };
    let end = lives + least(game.lives as int, 10);
    Layout { ball, bricks, ghosts, extras, capsules, scrim, lives, end }
}

/// The paddle and the main ball are drawn where they are between two ticks, the
/// paddle behind everything else and the ball before its trail.
pub proof fn law_frames_show_the_paddle_and_the_ball<R>(
    game: Game<R>,
    drawn: RenderState<R>,
    trail: Seq<(R, R)>,
    diff: FrameDiff,
)
    ensures
        ({
            let quads = render::frame(game, drawn, trail, diff);
            let at = layout(game, trail, diff);
            &&& quads.len() == at.end
            &&& quads[0].shape == Shape::Paddle(drawn.paddle)
            &&& quads[0].look == Look::Sprite(SpriteId::Paddle)
            &&& quads[0].shaken
            &&& quads[at.ball].shape == Shape::Ball(drawn.ball)
            &&& quads[at.ball].look == Look::Sprite(SpriteId::Ball)
            &&& quads[at.ball].shaken
        }),
{
}

/// Each place of the trail is drawn there, with the radius of the ball and its
/// number in the trail, from the oldest to the newest.
pub proof fn law_frames_show_the_trail<R>(
    game: Game<R>,
    drawn: RenderState<R>,
    trail: Seq<(R, R)>,
    diff: FrameDiff,
    i: int,
)
    requires
        0 <= i < trail.len() <= 4,
    ensures
        ({
            let quad = render::frame(game, drawn, trail, diff)[1 + i];
            &&& quad.shaken
            &&& quad.look == Look::Flat(render::BALL_COLOR)
            &&& quad.shape matches Shape::Trail { x, y, radius, step, steps } && {
                &&& x == trail[i].0
                &&& y == trail[i].1
                &&& radius == drawn.ball.radius
                &&& step == i + 1
                &&& steps == trail.len()
            }
        }),
{
}

/// Each brick, up to the largest number that is drawn, is drawn as that very
/// brick: in white if its place flashes, and else with the sprite of its kind,
/// which an armored brick changes with its first hit.
pub proof fn law_frames_show_every_brick<R>(
    game: Game<R>,
    drawn: RenderState<R>,
    trail: Seq<(R, R)>,
    diff: FrameDiff,
    i: int,
)
    requires
        0 <= i < game.bricks@.len(),
        i < 112,
    ensures
        ({
            let quad = render::frame(game, drawn, trail, diff)[layout(game, trail, diff).bricks
                + i];
            let brick = game.bricks@[i];
            let flashes = diff.hit_flash@.contains((brick.x, brick.y));
            &&& quad.shape == Shape::<R>::Brick(brick)
            &&& quad.shaken
            &&& flashes ==> quad.look == Look::Flat(render::HIT_FLASH_COLOR)
            &&& !flashes ==> quad.look == Look::Sprite(
                match brick.kind {
                    BrickKind::Normal => SpriteId::BrickNormal,
                    BrickKind::Armored => if brick.hits_remaining < 2 {
                        SpriteId::BrickArmoredHit
                    } else {
                        SpriteId::BrickArmoredIntact
                    },
                    BrickKind::Indestructible => SpriteId::BrickIndestructible,
                },
            )
        }),
{
}

/// Each brick that was just broken is drawn once more as that very brick, in
/// white.
pub proof fn law_frames_show_every_ghost<R>(
    game: Game<R>,
    drawn: RenderState<R>,
    trail: Seq<(R, R)>,
    diff: FrameDiff,
    i: int,
)
    requires
        0 <= i < diff.ghosts@.len(),
    ensures
        ({
            let quad = render::frame(game, drawn, trail, diff)[layout(game, trail, diff).ghosts
                + i];
            &&& quad.shape == Shape::<R>::Brick(diff.ghosts@[i])
            &&& quad.look == Look::Flat(render::HIT_FLASH_COLOR)
            &&& quad.shaken
        }),
{
}

/// Each extra ball, up to the largest number that is drawn, is drawn as that
/// very ball.
pub proof fn law_frames_show_every_extra_ball<R>(
    game: Game<R>,
    drawn: RenderState<R>,
    trail: Seq<(R, R)>,
    diff: FrameDiff,
    i: int,
)
    requires
        0 <= i < game.extra_balls@.len(),
        i < 16,
    ensures
        ({
            let quad = render::frame(game, drawn, trail, diff)[layout(game, trail, diff).extras
                + i];
            &&& quad.shape == Shape::Ball(game.extra_balls@[i])
            &&& quad.look == Look::Sprite(SpriteId::Ball)
            &&& quad.shaken
        }),
{
}

/// Each capsule, up to the largest number that is drawn, is drawn as that very
/// capsule, in the color of its kind.
pub proof fn law_frames_show_every_capsule<R>(
    game: Game<R>,
    drawn: RenderState<R>,
    trail: Seq<(R, R)>,
    diff: FrameDiff,
    i: int,
)
    requires
        0 <= i < game.powerups@.len(),
        i < 16,
    ensures
        ({
            let quad = render::frame(game, drawn, trail, diff)[layout(game, trail, diff).capsules
                + i];
            &&& quad.shape == Shape::Capsule(game.powerups@[i])
            &&& quad.look == Look::Flat(
                match game.powerups@[i].kind {
                    PowerUpKind::Widen => render::POWERUP_WIDEN_COLOR,
                    PowerUpKind::Slow => render::POWERUP_SLOW_COLOR,
                    PowerUpKind::Multiball => render::POWERUP_MULTIBALL_COLOR,
                },
            )
            &&& quad.shaken
        }),
{
}

/// Whenever the game is not played the whole scene is dimmed, before the life
/// icons, and the dimming does not shake.
pub proof fn law_frames_are_dimmed_behind_an_overlay<R>(
    game: Game<R>,
    drawn: RenderState<R>,
    trail: Seq<(R, R)>,
    diff: FrameDiff,
)
    requires
        game.state != GameState::Playing,
    ensures
        ({
            let quad = render::frame(game, drawn, trail, diff)[layout(game, trail, diff).scrim];
            &&& quad.shape == Shape::<R>::Screen
            &&& quad.look == Look::Flat(render::SCRIM_COLOR)
            &&& !quad.shaken
        }),
{
}

/// There is one icon for each life, up to ten, in a row from the top-right
/// corner to the left: 18 pixels from both edges, 16 pixels wide, and 8 pixels
/// from each other. The icons do not shake.
pub proof fn law_frames_show_every_life<R>(
    game: Game<R>,
    drawn: RenderState<R>,
    trail: Seq<(R, R)>,
    diff: FrameDiff,
    i: int,
)
    requires
        0 <= i < game.lives,
        i < 10,
    ensures
        ({
            let quad = render::frame(game, drawn, trail, diff)[layout(game, trail, diff).lives
                + i];
            &&& quad.shape matches Shape::LifeIcon { x, y } && {
                &&& x + 8 == 800 - 18 - i * (16 + 8)
                &&& y - 8 == 18
            }
            &&& quad.look == Look::Flat(render::BALL_COLOR)
            &&& !quad.shaken
        }),
{
    let quads = render::frame(game, drawn, trail, diff);
    let lives = render::life_quads::<R>(game.lives);
    let step: int = render::LIFE_ICON_SIZE + render::LIFE_ICON_GAP;
    assert(step == 24);
    assert(i * step == 24 * i) by (nonlinear_arith)
        requires
            step == 24,
    ;
    assert(quads[layout(game, trail, diff).lives + i] == lives[i]);
}

/// The sprite of a brick tells its kind, and of an armored brick whether it was
/// hit.
pub proof fn law_sprites_tell_bricks_apart(first: Brick, second: Brick)
    ensures
        first.kind != second.kind ==> render::sprite_of(first) != render::sprite_of(second),
        first.kind == BrickKind::Armored && second.kind == BrickKind::Armored
            && first.hits_remaining >= 2 && second.hits_remaining < 2 ==> render::sprite_of(first)
            != render::sprite_of(second),
        first.kind == second.kind && first.hits_remaining == second.hits_remaining
            ==> render::sprite_of(first) == render::sprite_of(second),
        render::sprite_of(first) != SpriteId::Paddle && render::sprite_of(first)
            != SpriteId::Ball,
{
}

/// A ball that flies leaves its place at the end of its trail, which keeps at
/// most the last four places in their order. A ball on the paddle has none.
pub proof fn law_trails_keep_the_last_places<R>(trail: Seq<(R, R)>, ball: Ball<R>, back: int)
    ensures
        ({
            let after = render::trail_after(trail, ball);
            &&& ball.attached ==> after.len() == 0
            &&& !ball.attached ==> {
                &&& after.len() == least(trail.len() as int + 1, 4)
                &&& after[after.len() - 1] == (ball.x, ball.y)
                &&& 1 <= back < after.len() ==> after[after.len() - 1 - back]
                    == trail[trail.len() - back]
            }
        }),
{
}

/// A brick flashes if at its place there was one with more hits to go. The
/// flashing places come in the order of the bricks, and there are no others.
pub proof fn law_flashing_places_are_those_of_hit_bricks(
    prev: Seq<Brick>,
    curr: Seq<Brick>,
    i: int,
)
    requires
        0 <= i < curr.len(),
    ensures
        ({
            let hit = |k: int| exists|j: int|
                {
                    &&& 0 <= j < prev.len()
                    &&& (#[trigger] prev[j]).x == curr[k].x
                    &&& prev[j].y == curr[k].y
                    &&& prev[j].hits_remaining > curr[k].hits_remaining
                };
            let places = render::hit_places(prev, curr);
            &&& places.len() == order::rank(hit, curr.len() as int)
            &&& hit(i) ==> {
                let place = order::rank(hit, i);
                0 <= place < places.len() && places[place] == (curr[i].x, curr[i].y)
            }
        }),
{
    lemma_hit_places(prev, curr, curr.len() as int, i);
    assert(curr.take(curr.len() as int) == curr);
}

proof fn lemma_hit_places(prev: Seq<Brick>, curr: Seq<Brick>, count: int, i: int)
    requires
        0 <= count <= curr.len(),
    ensures
        ({
            let hit = |k: int| exists|j: int|
                {
                    &&& 0 <= j < prev.len()
                    &&& (#[trigger] prev[j]).x == curr[k].x
                    &&& prev[j].y == curr[k].y
                    &&& prev[j].hits_remaining > curr[k].hits_remaining
                };
            let places = render::hit_places(prev, curr.take(count));
            &&& places.len() == order::rank(hit, count)
            &&& 0 <= i < count && hit(i) ==> {
                let place = order::rank(hit, i);
                0 <= place < places.len() && places[place] == (curr[i].x, curr[i].y)
            }
        }),
    decreases count,
{
    let hit = |k: int| exists|j: int|
        {
            &&& 0 <= j < prev.len()
            &&& (#[trigger] prev[j]).x == curr[k].x
            &&& prev[j].y == curr[k].y
            &&& prev[j].hits_remaining > curr[k].hits_remaining
        };
    if count > 0 {
        lemma_hit_places(prev, curr, count - 1, i);
        assert(curr.take(count).drop_last() == curr.take(count - 1));
        let brick = curr[count - 1];
        assert(curr.take(count).last() == brick);
        if render::was_hit(prev, brick) {
            let j = choose|j: int|
                0 <= j < prev.len() && render::same_place(#[trigger] prev[j], brick)
                    && prev[j].hits_remaining > brick.hits_remaining;
            assert(prev[j].x == curr[count - 1].x);
            assert(hit(count - 1));
        }
        if hit(count - 1) {
            let j = choose|j: int|
                {
                    &&& 0 <= j < prev.len()
                    &&& (#[trigger] prev[j]).x == curr[count - 1].x
                    &&& prev[j].y == curr[count - 1].y
                    &&& prev[j].hits_remaining > curr[count - 1].hits_remaining
                };
            assert(render::same_place(prev[j], brick));
            assert(render::was_hit(prev, brick));
        }
        if 0 <= i < count {
            order::lemma_rank_grows(hit, i, count);
        }
    }
}

/// A brick is drawn once more if it can be broken and nothing is at its place
/// any more. Such bricks come in their order, each as it was, and no others do.
pub proof fn law_ghosts_are_bricks_that_are_gone(prev: Seq<Brick>, curr: Seq<Brick>, i: int)
    requires
        0 <= i < prev.len(),
    ensures
        ({
            let gone = |k: int|
                {
                    &&& prev[k].kind != BrickKind::Indestructible
                    &&& forall|j: int|
                        0 <= j < curr.len() ==> (#[trigger] curr[j]).x != prev[k].x || curr[j].y
                            != prev[k].y
                };
            let ghosts = render::gone_bricks(prev, curr);
            &&& ghosts.len() == order::rank(gone, prev.len() as int)
            &&& gone(i) ==> {
                let place = order::rank(gone, i);
                0 <= place < ghosts.len() && ghosts[place] == prev[i]
            }
        }),
{
    lemma_gone_bricks(prev, curr, prev.len() as int, i);
    assert(prev.take(prev.len() as int) == prev);
}

proof fn lemma_gone_bricks(prev: Seq<Brick>, curr: Seq<Brick>, count: int, i: int)
    requires
        0 <= count <= prev.len(),
    ensures
        ({
            let gone = |k: int|
                {
                    &&& prev[k].kind != BrickKind::Indestructible
                    &&& forall|j: int|
                        0 <= j < curr.len() ==> (#[trigger] curr[j]).x != prev[k].x || curr[j].y
                            != prev[k].y
                };
            let ghosts = render::gone_bricks(prev.take(count), curr);
            &&& ghosts.len() == order::rank(gone, count)
            &&& 0 <= i < count && gone(i) ==> {
                let place = order::rank(gone, i);
                0 <= place < ghosts.len() && ghosts[place] == prev[i]
            }
        }),
    decreases count,
{
    let gone = |k: int|
        {
            &&& prev[k].kind != BrickKind::Indestructible
            &&& forall|j: int|
                0 <= j < curr.len() ==> (#[trigger] curr[j]).x != prev[k].x || curr[j].y
                    != prev[k].y
        };
    if count > 0 {
        lemma_gone_bricks(prev, curr, count - 1, i);
        assert(prev.take(count).drop_last() == prev.take(count - 1));
        let brick = prev[count - 1];
        assert(prev.take(count).last() == brick);
        if render::is_gone(brick, curr) {
            assert forall|j: int| 0 <= j < curr.len() implies (#[trigger] curr[j]).x != prev[count
                - 1].x || curr[j].y != prev[count - 1].y by {
                assert(!render::same_place(curr[j], brick));
            }
            assert(gone(count - 1));
        }
        if gone(count - 1) {
            assert forall|j: int| 0 <= j < curr.len() implies !render::same_place(
                #[trigger] curr[j],
                brick,
            ) by {
                assert(curr[j].x != prev[count - 1].x || curr[j].y != prev[count - 1].y);
            }
            assert(render::is_gone(brick, curr));
        }
        if 0 <= i < count {
            order::lemma_rank_grows(gone, i, count);
        }
    }
}

/// A list that is cut off keeps its first items in their order.
pub proof fn law_cut_lists_keep_their_start<T>(items: Seq<T>, count: int, i: int)
    requires
        0 <= count,
    ensures
        render::at_most(items, count).len() == least(items.len() as int, count),
        0 <= i < items.len() && i < count ==> render::at_most(items, count)[i] == items[i],
{
}

/// The drawn state is the later one at the upper end of the range, and the
/// earlier one at the lower end, if blending is so for any two numbers; but the
/// velocity of the ball, and whether it is attached, are always those of the
/// later state, and so is the whole ball once it was put back on the paddle.
pub proof fn law_blends_run_from_one_state_to_the_other<R, F: Fn(R, R, R) -> R>(
    mix: F,
    prev: RenderState<R>,
    curr: RenderState<R>,
    share: R,
    drawn: RenderState<R>,
)
    requires
        render::is_blend(mix, prev, curr, share, drawn),
    ensures
        ({
            let put_back = !prev.ball.attached && curr.ball.attached;
            let gives_later = forall|a: R, b: R, c: R|
                #[trigger] call_ensures(mix, (a, b, share), c) ==> c == b;
            let gives_earlier = forall|a: R, b: R, c: R|
                #[trigger] call_ensures(mix, (a, b, share), c) ==> c == a;
            &&& drawn.ball.vx == curr.ball.vx
            &&& drawn.ball.vy == curr.ball.vy
            &&& drawn.ball.attached == curr.ball.attached
            &&& put_back ==> drawn.ball == curr.ball
            &&& gives_later ==> drawn == curr
            &&& gives_earlier ==> drawn.paddle == prev.paddle
            &&& gives_earlier && !put_back ==> {
                &&& drawn.ball.x == prev.ball.x
                &&& drawn.ball.y == prev.ball.y
                &&& drawn.ball.radius == prev.ball.radius
            }
        }),
{
}

/// Every blended number is blended from the same number of both states, by the
/// same share.
pub proof fn law_blends_mix_like_with_like<R, F: Fn(R, R, R) -> R>(
    mix: F,
    prev: RenderState<R>,
    curr: RenderState<R>,
    share: R,
    drawn: RenderState<R>,
)
    requires
        render::is_blend(mix, prev, curr, share, drawn),
    ensures
        call_ensures(mix, (prev.paddle.x, curr.paddle.x, share), drawn.paddle.x),
        call_ensures(mix, (prev.paddle.y, curr.paddle.y, share), drawn.paddle.y),
        call_ensures(mix, (prev.paddle.width, curr.paddle.width, share), drawn.paddle.width),
        call_ensures(mix, (prev.paddle.height, curr.paddle.height, share), drawn.paddle.height),
        prev.ball.attached || !curr.ball.attached ==> {
            &&& call_ensures(mix, (prev.ball.x, curr.ball.x, share), drawn.ball.x)
            &&& call_ensures(mix, (prev.ball.y, curr.ball.y, share), drawn.ball.y)
            &&& call_ensures(mix, (prev.ball.radius, curr.ball.radius, share), drawn.ball.radius)
        },
{
}

/// A share is the lower end for what lies before it, the upper end for what
/// lies behind it, and otherwise the value itself.
pub proof fn law_shares_stay_between_the_ends<R, L: Fn(R, R) -> bool>(
    less: L,
    alpha: Alpha<R>,
    share: R,
)
    requires
        render::is_clamped(less, alpha, share),
        forall|a: R, b: R|
            !(#[trigger] call_ensures(less, (a, b), true) && call_ensures(less, (a, b), false)),
    ensures
        call_ensures(less, (alpha.value, alpha.zero), true) ==> share == alpha.zero,
        call_ensures(less, (alpha.value, alpha.zero), false) && call_ensures(
            less,
            (alpha.one, alpha.value),
            true,
        ) ==> share == alpha.one,
        call_ensures(less, (alpha.value, alpha.zero), false) && call_ensures(
            less,
            (alpha.one, alpha.value),
            false,
        ) ==> share == alpha.value,
{
}

/// The screens of the game: their titles, the keys of the menu and of a pause,
/// and the score at the end, in full.
pub proof fn law_screens_have_their_texts(state: GameState, score: u32)
    ensures
        ({
            let shown = render::overlay_of(state, score);
            let screen = shown->0;
            let total = "Final Score: "@ + text::decimal(score as nat);
            &&& state == GameState::Playing ==> shown is None
            &&& state != GameState::Playing ==> shown is Some
            &&& state == GameState::Menu ==> screen.0 == "ARKANOID"@ && screen.1
                == "SPACE: Start   ARROWS / A D: Move   ESC or P: Pause"@
            &&& state == GameState::Paused ==> screen.0 == "PAUSED"@ && screen.1
                == "ESC or P: Resume"@
            &&& state == GameState::GameOver ==> screen.0 == "GAME OVER"@ && screen.1 == total
            &&& state == GameState::Victory ==> screen.0 == "VICTORY!"@ && screen.1 == total
        }),
{
}

/// The score is at the top left and the level at the top in the middle, each
/// behind its label and whatever the state of the game.
pub proof fn law_frames_tell_the_score_and_the_level(
    state: GameState,
    score: u32,
    level: usize,
    set_loaded: bool,
)
    ensures
        ({
            let lines = render::frame_text(state, score, level, set_loaded);
            &&& lines.len() >= 2
            &&& lines[0].text == "Score: "@ + text::decimal(score as nat)
            &&& lines[0].align == Align::Left
            &&& lines[0].left == 18
            &&& lines[0].top == 18
            &&& lines[0].font_size == 22
            &&& lines[0].line_height == 26
            &&& lines[0].color == render::HUD_TEXT_COLOR
            &&& lines[1].text == "Level "@ + text::decimal(level as nat)
            &&& lines[1].align == Align::Center
            &&& lines[1].left == 0
            &&& lines[1].top == 18
            &&& lines[1].font_size == 22
            &&& lines[1].line_height == 26
            &&& lines[1].color == render::HUD_TEXT_COLOR
        }),
{
}

/// A screen has its title over the middle of the playfield and its detail line
/// under it, both centered. The menu offers random levels below that if a set
/// is loaded, and no other screen does.
pub proof fn law_screens_are_centered(
    state: GameState,
    score: u32,
    level: usize,
    set_loaded: bool,
)
    ensures
        ({
            let lines = render::frame_text(state, score, level, set_loaded);
            let shown = render::overlay_of(state, score);
            let screen = shown->0;
            let offers = state == GameState::Menu && set_loaded;
            &&& state == GameState::Playing ==> lines.len() == 2
            &&& state != GameState::Playing ==> {
                &&& lines.len() == if offers {
                    5int
                } else {
                    4int
                }
                &&& lines[2].text == screen.0
                &&& lines[2].align == Align::Center && lines[2].left == 0 && lines[2].top == 260
                &&& lines[2].font_size == 52 && lines[2].line_height == 58
                &&& lines[2].color == render::TITLE_TEXT_COLOR
                &&& lines[3].text == screen.1
                &&& lines[3].align == Align::Center && lines[3].left == 0 && lines[3].top == 330
                &&& lines[3].font_size == 20 && lines[3].line_height == 26
                &&& lines[3].color == render::HUD_TEXT_COLOR
            }
            &&& offers ==> {
                &&& lines[4].text == "R: RANDOM10"@
                &&& lines[4].align == Align::Center && lines[4].left == 0 && lines[4].top == 360
                &&& lines[4].font_size == 20 && lines[4].line_height == 26
                &&& lines[4].color == render::HUD_TEXT_COLOR
            }
        }),
{
}

/// A frame shakes if the score rose since the last. On the same level the bricks
/// that were hit flash and the first eight of those that broke are drawn once
/// more; on another level none are. The next frame is told from this one.
pub proof fn law_frames_are_told_from_the_last(
    before: FrameTracker,
    bricks: Seq<Brick>,
    level: usize,
    score: u32,
    after: FrameTracker,
    diff: FrameDiff,
    i: int,
)
    requires
        render::noted(before, bricks, level, score, after, diff),
    ensures
        ({
            let gone = render::gone_bricks(before.prev_bricks@, bricks);
            &&& diff.score_increased <==> before.prev_score < score
            &&& after.prev_bricks@ == bricks && after.prev_level == level && after.prev_score
                == score
            &&& level != before.prev_level ==> diff.hit_flash@.len() == 0 && diff.ghosts@.len()
                == 0
            &&& level == before.prev_level ==> {
                &&& diff.hit_flash@ == render::hit_places(before.prev_bricks@, bricks)
                &&& diff.ghosts@.len() == least(gone.len() as int, 8)
                &&& 0 <= i < diff.ghosts@.len() ==> diff.ghosts@[i] == gone[i]
            }
        }),
{
}

/// What a renderer keeps of a game is its paddle and its main ball.
pub proof fn law_render_states_show_the_game<R: Copy>(game: &Game<R>)
    ensures
        <RenderState<R> as FromSpec<&Game<R>>>::from_spec(game).paddle == game.paddle,
        <RenderState<R> as FromSpec<&Game<R>>>::from_spec(game).ball == game.ball,
{
}

/// The view of a line of text shows each part of it as it is.
pub proof fn law_views_show_the_lines(lines: Seq<Line>, i: int)
    requires
        0 <= i < lines.len(),
    ensures
        ({
            let views = render::line_views(lines);
            &&& views.len() == lines.len()
            &&& views[i].text == lines[i].text@
            &&& views[i].font_size == lines[i].font_size
            &&& views[i].line_height == lines[i].line_height
            &&& views[i].align == lines[i].align
            &&& views[i].left == lines[i].left
            &&& views[i].top == lines[i].top
            &&& views[i].color == lines[i].color
        }),
{
}

} // verus!
