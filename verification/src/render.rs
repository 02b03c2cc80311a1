//! What a frame of the flat view shows: which quads, in which order and with
//! which look, and which lines of text.
//!
//! Colors are red, green, blue and opacity in percent. Positions of bricks and
//! of everything that stands still are whole pixels; those of moving bodies
//! are of the type `R` that the front end computes with. A quad that is not
//! part of the display on top of the scene moves with the screen shake, which
//! the front end adds.

use std::collections::VecDeque;

use vstd::prelude::*;

use crate::assets::SpriteId;
use crate::events::PowerUpKind;
use crate::game::{
    Ball, Brick, Game, GameState, Paddle, PowerUp, PLAYFIELD_HEIGHT, PLAYFIELD_WIDTH,
};
use crate::levels::BrickKind;
use crate::text;
use crate::text::push_decimal;

verus! {

/// Largest number of bricks that are drawn.
pub const MAX_BRICKS: usize = 112;

/// Largest number of life icons that are drawn.
pub const MAX_LIFE_ICONS: usize = 10;

/// Largest number of extra balls that are drawn.
pub const MAX_EXTRA_BALLS: usize = 16;

/// Largest number of capsules that are drawn.
pub const MAX_POWERUPS: usize = 16;

/// Half the side of a capsule.
pub const POWERUP_HALF_SIZE: i64 = 9;

/// Number of quads in the trail of the ball.
pub const TRAIL_LEN: usize = 4;

/// Largest number of destroyed bricks that are drawn once more.
pub const MAX_DESTROY_GHOSTS: usize = 8;

/// Largest number of quads of a frame.
pub const MAX_QUADS: usize = 169;

/// Color of the ball's trail and of the life icons.
pub const BALL_COLOR: [u8; 4] = [100, 78, 20, 100];

pub const POWERUP_WIDEN_COLOR: [u8; 4] = [35, 85, 40, 100];

pub const POWERUP_SLOW_COLOR: [u8; 4] = [35, 55, 95, 100];

pub const POWERUP_MULTIBALL_COLOR: [u8; 4] = [80, 35, 90, 100];

/// Color of a brick that was just hit.
pub const HIT_FLASH_COLOR: [u8; 4] = [100, 100, 100, 100];

/// Color that dims the scene behind an overlay.
pub const SCRIM_COLOR: [u8; 4] = [0, 0, 0, 62];

/// The color of a capsule.
pub open spec fn capsule_color(kind: PowerUpKind) -> [u8; 4] {
    match kind {
        PowerUpKind::Widen => POWERUP_WIDEN_COLOR,
        PowerUpKind::Slow => POWERUP_SLOW_COLOR,
        PowerUpKind::Multiball => POWERUP_MULTIBALL_COLOR,
    }
}

/// The color of a capsule of some kind.
pub fn powerup_color(kind: PowerUpKind) -> (color: [u8; 4])
    ensures
        color == capsule_color(kind),
{
    match kind {
        PowerUpKind::Widen => POWERUP_WIDEN_COLOR,
        PowerUpKind::Slow => POWERUP_SLOW_COLOR,
        PowerUpKind::Multiball => POWERUP_MULTIBALL_COLOR,
    }
}

/// Every kind of capsule has its own color.
pub proof fn law_capsule_colors_are_distinct(first: PowerUpKind, second: PowerUpKind)
    requires
        first != second,
    ensures
        capsule_color(first)@ != capsule_color(second)@,
{
    assert(POWERUP_WIDEN_COLOR@[1] == 85);
    assert(POWERUP_SLOW_COLOR@[1] == 55);
    assert(POWERUP_MULTIBALL_COLOR@[1] == 35);
}

/// The sprite of a brick. An armored one changes with its first hit.
pub open spec fn sprite_of(brick: Brick) -> SpriteId {
    match brick.kind {
        BrickKind::Normal => SpriteId::BrickNormal,
        BrickKind::Armored => if brick.hits_remaining >= 2 {
            SpriteId::BrickArmoredIntact
        } else {
            SpriteId::BrickArmoredHit
        },
        BrickKind::Indestructible => SpriteId::BrickIndestructible,
    }
}

/// The sprite that a brick is drawn with.
pub fn brick_sprite(brick: &Brick) -> (sprite: SpriteId)
    ensures
        sprite == sprite_of(*brick),
{
    match brick.kind {
        BrickKind::Normal => SpriteId::BrickNormal,
        BrickKind::Armored => if brick.hits_remaining >= 2 {
            SpriteId::BrickArmoredIntact
        } else {
            SpriteId::BrickArmoredHit
        },
        BrickKind::Indestructible => SpriteId::BrickIndestructible,
    }
}

/// The moving bodies whose drawn positions lie between two ticks.
#[derive(Debug, Clone, Copy, PartialEq)]
pub struct RenderState<R> {
    pub paddle: Paddle<R>,
    pub ball: Ball<R>,
}

impl<'a, R: Copy> vstd::std_specs::convert::FromSpecImpl<&'a Game<R>> for RenderState<R> {
    open spec fn obeys_from_spec() -> bool {
        true
    }

    open spec fn from_spec(game: &'a Game<R>) -> RenderState<R> {
        RenderState { paddle: game.paddle, ball: game.ball }
    }
}

impl<'a, R: Copy> From<&'a Game<R>> for RenderState<R> {
    fn from(game: &'a Game<R>) -> (state: RenderState<R>) {
        RenderState { paddle: game.paddle, ball: game.ball }
    }
}

/// Whether a ball was put back on the paddle between two states.
pub open spec fn respawned<R>(prev: RenderState<R>, curr: RenderState<R>) -> bool {
    !prev.ball.attached && curr.ball.attached
}

/// How far a frame is into a tick, and the ends of the range in which that
/// counts.
#[derive(Debug, Clone, Copy, PartialEq)]
pub struct Alpha<R> {
    pub value: R,
    pub zero: R,
    pub one: R,
}

/// Whether `share` is `alpha` cut off at the ends of its range, as `less`
/// orders the numbers.
pub open spec fn is_clamped<R, L: Fn(R, R) -> bool>(less: L, alpha: Alpha<R>, share: R) -> bool {
    ||| {
        &&& call_ensures(less, (alpha.value, alpha.zero), true)
        &&& share == alpha.zero
    }
    ||| {
        &&& call_ensures(less, (alpha.value, alpha.zero), false)
        &&& call_ensures(less, (alpha.one, alpha.value), true)
        &&& share == alpha.one
    }
    ||| {
        &&& call_ensures(less, (alpha.value, alpha.zero), false)
        &&& call_ensures(less, (alpha.one, alpha.value), false)
        &&& share == alpha.value
    }
}

impl<R: Copy> Alpha<R> {
    /// The share of the later state: the value, cut off at the ends.
    pub fn clamped<L: Fn(R, R) -> bool>(&self, less: &L) -> (share: R)
        requires
            forall|a: R, b: R| call_requires(*less, (a, b)),
        ensures
            is_clamped(*less, *self, share),
    {
        if less(self.value, self.zero) {
            self.zero
        } else if less(self.one, self.value) {
            self.one
        } else {
            self.value
        }
    }
}

/// Whether a state lies between two others, with `mix` to blend two numbers by
/// a share. Every number of the paddle and the place and size of the ball are
/// blended; the velocity of the ball, and whether it is attached, are those of
/// the later state. A ball that was put back on the paddle is the later one.
pub open spec fn is_blend<R, F: Fn(R, R, R) -> R>(
    mix: F,
    prev: RenderState<R>,
    curr: RenderState<R>,
    share: R,
    drawn: RenderState<R>,
) -> bool {
    &&& call_ensures(mix, (prev.paddle.x, curr.paddle.x, share), drawn.paddle.x)
    &&& call_ensures(mix, (prev.paddle.y, curr.paddle.y, share), drawn.paddle.y)
    &&& call_ensures(mix, (prev.paddle.width, curr.paddle.width, share), drawn.paddle.width)
    &&& call_ensures(mix, (prev.paddle.height, curr.paddle.height, share), drawn.paddle.height)
    &&& respawned(prev, curr) ==> drawn.ball == curr.ball
    &&& !respawned(prev, curr) ==> {
        &&& call_ensures(mix, (prev.ball.x, curr.ball.x, share), drawn.ball.x)
        &&& call_ensures(mix, (prev.ball.y, curr.ball.y, share), drawn.ball.y)
        &&& call_ensures(mix, (prev.ball.radius, curr.ball.radius, share), drawn.ball.radius)
        &&& drawn.ball.vx == curr.ball.vx
        &&& drawn.ball.vy == curr.ball.vy
        &&& drawn.ball.attached == curr.ball.attached
    }
}

/// Whether a state is the blend of two others by `alpha`, cut off at its ends.
pub open spec fn is_lerp<R, L: Fn(R, R) -> bool, F: Fn(R, R, R) -> R>(
    less: L,
    mix: F,
    prev: RenderState<R>,
    curr: RenderState<R>,
    alpha: Alpha<R>,
    drawn: RenderState<R>,
) -> bool {
    exists|share: R|
        is_clamped(less, alpha, share) && #[trigger] is_blend(mix, prev, curr, share, drawn)
}

impl<R: Copy> RenderState<R> {
    /// The state between two ticks. It never lies beyond either of them: what
    /// is blended by is `alpha` cut off at its ends. A ball that was put back
    /// on the paddle is drawn there at once, without a streak from where it
    /// dropped out.
    pub fn lerp<L: Fn(R, R) -> bool, F: Fn(R, R, R) -> R>(
        prev: &RenderState<R>,
        curr: &RenderState<R>,
        alpha: &Alpha<R>,
        less: L,
        mix: F,
    ) -> (drawn: RenderState<R>)
        requires
            forall|a: R, b: R| call_requires(less, (a, b)),
            forall|a: R, b: R, share: R| call_requires(mix, (a, b, share)),
        ensures
            is_lerp(less, mix, *prev, *curr, *alpha, drawn),
    {
        let share = alpha.clamped(&less);
        let just_respawned = !prev.ball.attached && curr.ball.attached;
        let paddle = Paddle {
            x: mix(prev.paddle.x, curr.paddle.x, share),
            y: mix(prev.paddle.y, curr.paddle.y, share),
            width: mix(prev.paddle.width, curr.paddle.width, share),
            height: mix(prev.paddle.height, curr.paddle.height, share),
        };
        let ball = if just_respawned {
            curr.ball
        } else {
            Ball {
                x: mix(prev.ball.x, curr.ball.x, share),
                y: mix(prev.ball.y, curr.ball.y, share),
                vx: curr.ball.vx,
                vy: curr.ball.vy,
                radius: mix(prev.ball.radius, curr.ball.radius, share),
                attached: curr.ball.attached,
            }
        };
        let drawn = RenderState { paddle, ball };
        assert(is_blend(mix, *prev, *curr, share, drawn));
        drawn
    }
}

/// Whether `less` answers each question in one way, and puts neither end of the
/// range before itself nor its upper end before its lower one.
pub open spec fn orders_ends<R, L: Fn(R, R) -> bool>(less: L, alpha: Alpha<R>) -> bool {
    &&& forall|a: R, b: R|
        !(#[trigger] call_ensures(less, (a, b), true) && call_ensures(less, (a, b), false))
    &&& call_ensures(less, (alpha.zero, alpha.zero), false)
    &&& call_ensures(less, (alpha.one, alpha.one), false)
    &&& call_ensures(less, (alpha.one, alpha.zero), false)
}

/// No blend lies beyond the two states: `alpha` is as good as the share that it
/// is cut off to, and that is not before the lower end nor behind the upper one.
pub proof fn law_blends_never_extrapolate<R, L: Fn(R, R) -> bool, F: Fn(R, R, R) -> R>(
    less: L,
    mix: F,
    prev: RenderState<R>,
    curr: RenderState<R>,
    alpha: Alpha<R>,
    share: R,
    drawn: RenderState<R>,
)
    requires
        orders_ends(less, alpha),
        is_clamped(less, alpha, share),
    ensures
        !call_ensures(less, (share, alpha.zero), true),
        !call_ensures(less, (alpha.one, share), true),
        is_lerp(less, mix, prev, curr, alpha, drawn) <==> is_blend(mix, prev, curr, share, drawn),
        is_lerp(less, mix, prev, curr, alpha, drawn) <==> is_lerp(
            less,
            mix,
            prev,
            curr,
            Alpha { value: share, ..alpha },
            drawn,
        ),
{
    assert(is_clamped(less, Alpha { value: share, ..alpha }, share));
}

/// Whether two bricks are at the same place. Bricks never move, so that makes
/// them the same brick at two times.
pub open spec fn same_place(a: Brick, b: Brick) -> bool {
    a.x == b.x && a.y == b.y
}

/// Whether a brick was among the earlier ones with more hits to go.
pub open spec fn was_hit(prev: Seq<Brick>, brick: Brick) -> bool {
    exists|i: int|
        0 <= i < prev.len() && same_place(#[trigger] prev[i], brick) && prev[i].hits_remaining
            > brick.hits_remaining
}

/// The places of the bricks that took a hit and still stand, in order.
pub open spec fn hit_places(prev: Seq<Brick>, curr: Seq<Brick>) -> Seq<(i64, i64)>
    decreases curr.len(),
{
    if curr.len() == 0 {
        Seq::empty()
    } else {
        let before = hit_places(prev, curr.drop_last());
        if was_hit(prev, curr.last()) {
            before.push((curr.last().x, curr.last().y))
        } else {
            before
        }
    }
}

/// Whether a brick can be broken and is no longer there.
pub open spec fn is_gone(brick: Brick, curr: Seq<Brick>) -> bool {
    &&& brick.kind != BrickKind::Indestructible
    &&& forall|i: int| 0 <= i < curr.len() ==> !same_place(#[trigger] curr[i], brick)
}

/// The bricks that were broken, in order.
pub open spec fn gone_bricks(prev: Seq<Brick>, curr: Seq<Brick>) -> Seq<Brick>
    decreases prev.len(),
{
    if prev.len() == 0 {
        Seq::empty()
    } else {
        let before = gone_bricks(prev.drop_last(), curr);
        if is_gone(prev.last(), curr) {
            before.push(prev.last())
        } else {
            before
        }
    }
}

/// Whether a brick took a hit since the earlier list.
fn just_hit(prev: &Vec<Brick>, brick: &Brick) -> (hit: bool)
    ensures
        hit == was_hit(prev@, *brick),
{
    let mut i: usize = 0;
    while i < prev.len()
        invariant
            i <= prev@.len(),
            forall|k: int|
                0 <= k < i ==> !(same_place(#[trigger] prev@[k], *brick) && prev@[k].hits_remaining
                    > brick.hits_remaining),
        decreases prev@.len() - i,
    {
        let earlier = prev[i];
        if earlier.x == brick.x && earlier.y == brick.y && earlier.hits_remaining
            > brick.hits_remaining {
            assert(same_place(prev@[i as int], *brick));
            return true;
        }
        i = i + 1;
    }
    false
}

/// The places of the bricks that took a hit since the earlier list and still
/// stand.
pub fn bricks_just_hit(prev: &Vec<Brick>, curr: &Vec<Brick>) -> (places: Vec<(i64, i64)>)
    ensures
        places@ == hit_places(prev@, curr@),
{
    let mut places: Vec<(i64, i64)> = Vec::new();
    let mut i: usize = 0;
    while i < curr.len()
        invariant
            i <= curr@.len(),
            places@ == hit_places(prev@, curr@.take(i as int)),
        decreases curr@.len() - i,
    {
        assert(curr@.take(i + 1).drop_last() == curr@.take(i as int));
        let brick = curr[i];
        if just_hit(prev, &brick) {
            places.push((brick.x, brick.y));
        }
        i = i + 1;
    }
    assert(curr@.take(i as int) == curr@);
    places
}

/// Whether a brick that can be broken is missing from a later list.
fn just_gone(brick: &Brick, curr: &Vec<Brick>) -> (gone: bool)
    ensures
        gone == is_gone(*brick, curr@),
{
    if brick.kind == BrickKind::Indestructible {
        return false;
    }
    let mut i: usize = 0;
    while i < curr.len()
        invariant
            i <= curr@.len(),
            forall|k: int| 0 <= k < i ==> !same_place(#[trigger] curr@[k], *brick),
        decreases curr@.len() - i,
    {
        if curr[i].x == brick.x && curr[i].y == brick.y {
            assert(same_place(curr@[i as int], *brick));
            return false;
        }
        i = i + 1;
    }
    true
}

/// The bricks of the earlier list that were broken since. An indestructible
/// one only goes with its level, and does not count.
pub fn bricks_just_destroyed(prev: &Vec<Brick>, curr: &Vec<Brick>) -> (gone: Vec<Brick>)
    ensures
        gone@ == gone_bricks(prev@, curr@),
{
    let mut gone: Vec<Brick> = Vec::new();
    let mut i: usize = 0;
    while i < prev.len()
        invariant
            i <= prev@.len(),
            gone@ == gone_bricks(prev@.take(i as int), curr@),
        decreases prev@.len() - i,
    {
        assert(prev@.take(i + 1).drop_last() == prev@.take(i as int));
        let brick = prev[i];
        if just_gone(&brick, curr) {
            gone.push(brick);
        }
        i = i + 1;
    }
    assert(prev@.take(i as int) == prev@);
    gone
}

/// The trail after one frame: empty while the ball is attached, and otherwise
/// the last four places of the ball.
pub open spec fn trail_after<R>(trail: Seq<(R, R)>, ball: Ball<R>) -> Seq<(R, R)> {
    let longer = trail.push((ball.x, ball.y));
    if ball.attached {
        Seq::empty()
    } else if longer.len() > TRAIL_LEN {
        longer.skip(longer.len() - TRAIL_LEN)
    } else {
        longer
    }
}

/// Adds the ball's place to its trail.
pub fn push_trail<R: Copy>(trail: &mut VecDeque<(R, R)>, ball: &Ball<R>)
    ensures
        final(trail)@ == trail_after(old(trail)@, *ball),
{
    if ball.attached {
        trail.clear();
        return;
    }
    trail.push_back((ball.x, ball.y));
    let ghost longer = trail@;
    while trail.len() > TRAIL_LEN
        invariant
            trail@.len() <= longer.len(),
            longer.len() <= TRAIL_LEN ==> trail@ == longer,
            longer.len() > TRAIL_LEN ==> trail@.len() >= TRAIL_LEN,
            trail@ == longer.skip(longer.len() - trail@.len()),
        decreases trail@.len(),
    {
        let _oldest = trail.pop_front();
        assert(trail@ == longer.skip(longer.len() - trail@.len()));
    }
}

/// What changed between two frames.
#[derive(Debug)]
pub struct FrameDiff {
    /// Whether the score rose, which shakes the screen.
    pub score_increased: bool,
    /// The places of the bricks that flash.
    pub hit_flash: Vec<(i64, i64)>,
    /// The broken bricks that are drawn once more.
    pub ghosts: Vec<Brick>,
}

/// What the last frame showed.
#[derive(Debug)]
pub struct FrameTracker {
    pub prev_bricks: Vec<Brick>,
    pub prev_level: usize,
    pub prev_score: u32,
}

/// At most the first `count` of some items.
pub open spec fn at_most<T>(items: Seq<T>, count: int) -> Seq<T> {
    if items.len() > count {
        items.take(count)
    } else {
        items
    }
}

impl Default for FrameTracker {
    fn default() -> (tracker: Self)
        ensures
            tracker.prev_bricks@ == Seq::<Brick>::empty(),
            tracker.prev_level == 0,
            tracker.prev_score == 0,
    {
        FrameTracker { prev_bricks: Vec::new(), prev_level: 0, prev_score: 0 }
    }
}

/// Whether a tracker noted a frame and told what changed since the one before.
pub open spec fn noted(
    before: FrameTracker,
    bricks: Seq<Brick>,
    level: usize,
    score: u32,
    after: FrameTracker,
    diff: FrameDiff,
) -> bool {
    &&& diff.score_increased == (score > before.prev_score)
    &&& level == before.prev_level ==> {
        &&& diff.hit_flash@ == hit_places(before.prev_bricks@, bricks)
        &&& diff.ghosts@ == at_most(
            gone_bricks(before.prev_bricks@, bricks),
            MAX_DESTROY_GHOSTS as int,
        )
    }
    &&& level != before.prev_level ==> diff.hit_flash@.len() == 0 && diff.ghosts@.len() == 0
    &&& after.prev_bricks@ == bricks
    &&& after.prev_level == level
    &&& after.prev_score == score
}

impl FrameTracker {
    /// Takes note of a frame and says what changed since the last. In the first
    /// frame of a level no brick flashes, for the bricks of two levels have
    /// nothing to do with each other.
    pub fn observe(&mut self, bricks: &Vec<Brick>, level: usize, score: u32) -> (diff: FrameDiff)
        ensures
            noted(*old(self), bricks@, level, score, *final(self), diff),
    {
        let score_increased = score > self.prev_score;
        let mut hit_flash: Vec<(i64, i64)> = Vec::new();
        let mut ghosts: Vec<Brick> = Vec::new();
        if level == self.prev_level {
            hit_flash = bricks_just_hit(&self.prev_bricks, bricks);
            ghosts = bricks_just_destroyed(&self.prev_bricks, bricks);
            if ghosts.len() > MAX_DESTROY_GHOSTS {
                ghosts.truncate(MAX_DESTROY_GHOSTS);
            }
        }
        self.prev_score = score;
        self.prev_level = level;
        self.prev_bricks = bricks.clone();
        assert(self.prev_bricks@ == bricks@);
        FrameDiff { score_increased, hit_flash, ghosts }
    }
}

proof fn lemma_nothing_hit(bricks: Seq<Brick>, count: int)
    requires
        0 <= count <= bricks.len(),
        forall|i: int, j: int|
            0 <= i < j < bricks.len() ==> !same_place(#[trigger] bricks[i], #[trigger] bricks[j]),
    ensures
        hit_places(bricks, bricks.take(count)).len() == 0,
    decreases count,
{
    if count > 0 {
        lemma_nothing_hit(bricks, count - 1);
        let brick = bricks[count - 1];
        assert(bricks.take(count).drop_last() == bricks.take(count - 1));
        assert(!was_hit(bricks, brick)) by {
            if was_hit(bricks, brick) {
                let i = choose|i: int|
                    0 <= i < bricks.len() && same_place(#[trigger] bricks[i], brick)
                        && bricks[i].hits_remaining > brick.hits_remaining;
                assert(!same_place(bricks[count - 1], bricks[i]) || i == count - 1);
                assert(!same_place(bricks[i], bricks[count - 1]) || i == count - 1);
            }
        }
    }
}

proof fn lemma_nothing_gone(bricks: Seq<Brick>, count: int)
    requires
        0 <= count <= bricks.len(),
    ensures
        gone_bricks(bricks.take(count), bricks).len() == 0,
    decreases count,
{
    if count > 0 {
        lemma_nothing_gone(bricks, count - 1);
        assert(bricks.take(count).drop_last() == bricks.take(count - 1));
        assert(same_place(bricks[count - 1], bricks[count - 1]));
    }
}

/// A flash lasts one frame: once the bricks, each in its own place, stay as they
/// are, none of them flashes and none is drawn once more.
pub proof fn law_flashes_last_one_frame(bricks: Seq<Brick>)
    requires
        forall|i: int, j: int|
            0 <= i < j < bricks.len() ==> !same_place(#[trigger] bricks[i], #[trigger] bricks[j]),
    ensures
        hit_places(bricks, bricks).len() == 0,
        gone_bricks(bricks, bricks).len() == 0,
{
    lemma_nothing_hit(bricks, bricks.len() as int);
    lemma_nothing_gone(bricks, bricks.len() as int);
    assert(bricks.take(bricks.len() as int) == bricks);
}

/// A text followed by a number.
pub open spec fn labelled(label: Seq<char>, number: nat) -> Seq<char> {
    label + text::decimal(number)
}

/// Writes a number behind a label.
fn label_number(label: &str, number: u64) -> (line: String)
    ensures
        line@ == labelled(label@, number as nat),
{
    let mut line: String = label.to_owned();
    push_decimal(&mut line, number);
    line
}

/// The title and the detail line of the screen for a state, if it has one. The
/// end screens show the score.
pub open spec fn overlay_of(state: GameState, score: u32) -> Option<(Seq<char>, Seq<char>)> {
    match state {
        GameState::Menu => Some(
            ("ARKANOID"@, "SPACE: Start   ARROWS / A D: Move   ESC or P: Pause"@),
        ),
        GameState::Paused => Some(("PAUSED"@, "ESC or P: Resume"@)),
        GameState::GameOver => Some(("GAME OVER"@, labelled("Final Score: "@, score as nat))),
        GameState::Victory => Some(("VICTORY!"@, labelled("Final Score: "@, score as nat))),
        GameState::Playing => None,
    }
}

/// The title and the detail line over the scene, whenever the game is not
/// played.
pub fn overlay_text<R>(game: &Game<R>) -> (overlay: Option<(&'static str, String)>)
    ensures
        match overlay {
            Some((title, detail)) => overlay_of(game.state, game.score) == Some(
                (title@, detail@),
            ),
            None => overlay_of(game.state, game.score) is None,
        },
{
    match game.state {
        GameState::Menu => Some(
            ("ARKANOID", "SPACE: Start   ARROWS / A D: Move   ESC or P: Pause".to_owned()),
        ),
        GameState::Paused => Some(("PAUSED", "ESC or P: Resume".to_owned())),
        GameState::GameOver => Some(("GAME OVER", label_number("Final Score: ", game.score as u64))),
        GameState::Victory => Some(("VICTORY!", label_number("Final Score: ", game.score as u64))),
        GameState::Playing => None,
    }
}

/// There is an overlay in every state but `Playing`.
pub proof fn law_only_play_has_no_overlay(state: GameState, score: u32)
    ensures
        overlay_of(state, score) is None <==> state == GameState::Playing,
{
}

/// What a quad covers.
#[derive(Debug, Clone, Copy, PartialEq)]
pub enum Shape<R> {
    Paddle(Paddle<R>),
    /// The square around a ball.
    Ball(Ball<R>),
    /// A place of the ball's trail: number `step` of `steps`, counted from the
    /// oldest, which is the smallest and faintest. `radius` is that of the
    /// ball.
    Trail { x: R, y: R, radius: R, step: usize, steps: usize },
    Brick(Brick),
    /// The square of a capsule.
    Capsule(PowerUp<R>),
    /// The whole playfield.
    Screen,
    /// The square around this center.
    LifeIcon { x: i64, y: i64 },
}

/// How a quad is filled.
#[derive(Debug, Clone, Copy, PartialEq, Eq)]
pub enum Look {
    Sprite(SpriteId),
    Flat([u8; 4]),
}

/// One quad of a frame.
#[derive(Debug, Clone, Copy, PartialEq)]
pub struct Quad<R> {
    pub shape: Shape<R>,
    pub look: Look,
    /// Whether it moves with the screen shake.
    pub shaken: bool,
}

/// Margin of the display on top of the scene.
pub const HUD_MARGIN: i64 = 18;

pub const LIFE_ICON_SIZE: i64 = 16;

pub const LIFE_ICON_GAP: i64 = 8;

pub open spec fn paddle_quad<R>(paddle: Paddle<R>) -> Quad<R> {
    Quad { shape: Shape::Paddle(paddle), look: Look::Sprite(SpriteId::Paddle), shaken: true }
}

pub open spec fn ball_quad<R>(ball: Ball<R>) -> Quad<R> {
    Quad { shape: Shape::Ball(ball), look: Look::Sprite(SpriteId::Ball), shaken: true }
}

/// The trail, from the oldest place to the newest.
pub open spec fn trail_quads<R>(trail: Seq<(R, R)>, radius: R) -> Seq<Quad<R>> {
    Seq::new(
        trail.len(),
        |i: int|
            Quad {
                shape: Shape::Trail {
                    x: trail[i].0,
                    y: trail[i].1,
                    radius,
                    step: (i + 1) as usize,
                    steps: trail.len() as usize,
                },
                look: Look::Flat(BALL_COLOR),
                shaken: true,
            },
    )
}

/// A brick, all white if it was just hit.
pub open spec fn brick_quad<R>(brick: Brick, flash: bool) -> Quad<R> {
    Quad {
        shape: Shape::Brick(brick),
        look: if flash {
            Look::Flat(HIT_FLASH_COLOR)
        } else {
            Look::Sprite(sprite_of(brick))
        },
        shaken: true,
    }
}

pub open spec fn brick_quads<R>(bricks: Seq<Brick>, flash: Seq<(i64, i64)>) -> Seq<Quad<R>> {
    at_most(bricks, MAX_BRICKS as int).map_values(
        |brick: Brick| brick_quad(brick, flash.contains((brick.x, brick.y))),
    )
}

/// The broken bricks, all white.
pub open spec fn ghost_quads<R>(ghosts: Seq<Brick>) -> Seq<Quad<R>> {
    ghosts.map_values(|brick: Brick| brick_quad(brick, true))
}

pub open spec fn extra_quads<R>(balls: Seq<Ball<R>>) -> Seq<Quad<R>> {
    at_most(balls, MAX_EXTRA_BALLS as int).map_values(|ball: Ball<R>| ball_quad(ball))
}

pub open spec fn capsule_quad<R>(powerup: PowerUp<R>) -> Quad<R> {
    Quad {
        shape: Shape::Capsule(powerup),
        look: Look::Flat(capsule_color(powerup.kind)),
        shaken: true,
    }
}

pub open spec fn capsule_quads<R>(powerups: Seq<PowerUp<R>>) -> Seq<Quad<R>> {
    at_most(powerups, MAX_POWERUPS as int).map_values(
        |powerup: PowerUp<R>| capsule_quad(powerup),
    )
}

/// The quad that dims the scene behind an overlay.
pub open spec fn scrim_quads<R>(state: GameState) -> Seq<Quad<R>> {
    if state == GameState::Playing {
        Seq::empty()
    } else {
        seq![Quad { shape: Shape::Screen, look: Look::Flat(SCRIM_COLOR), shaken: false }]
    }
}

/// One icon for each life, from the top-right corner to the left.
pub open spec fn life_quads<R>(lives: u32) -> Seq<Quad<R>> {
    Seq::new(
        if lives > MAX_LIFE_ICONS {
            MAX_LIFE_ICONS as nat
        } else {
            lives as nat
        },
        |i: int|
            Quad {
                shape: Shape::LifeIcon {
                    x: (PLAYFIELD_WIDTH - HUD_MARGIN - LIFE_ICON_SIZE / 2 - i * (LIFE_ICON_SIZE
                        + LIFE_ICON_GAP)) as i64,
                    y: (HUD_MARGIN + LIFE_ICON_SIZE / 2) as i64,
                },
                look: Look::Flat(BALL_COLOR),
                shaken: false,
            },
    )
}

/// The quads of a frame, from the back to the front: the scene, and on top of
/// it the scrim and the life icons.
pub open spec fn frame<R>(
    game: Game<R>,
    drawn: RenderState<R>,
    trail: Seq<(R, R)>,
    diff: FrameDiff,
) -> Seq<Quad<R>> {
    seq![paddle_quad(drawn.paddle)] + trail_quads(trail, drawn.ball.radius) + seq![
        ball_quad(drawn.ball),
    ] + brick_quads(game.bricks@, diff.hit_flash@) + ghost_quads(diff.ghosts@) + extra_quads(
        game.extra_balls@,
    ) + capsule_quads(game.powerups@) + scrim_quads(game.state) + life_quads(game.lives)
}

/// Whether a place is in a list.
fn contains_place(places: &Vec<(i64, i64)>, x: i64, y: i64) -> (found: bool)
    ensures
        found == places@.contains((x, y)),
{
    let mut i: usize = 0;
    while i < places.len()
        invariant
            i <= places@.len(),
            forall|k: int| 0 <= k < i ==> places@[k] != (x, y),
        decreases places@.len() - i,
    {
        let place = places[i];
        if place.0 == x && place.1 == y {
            assert(places@[i as int] == (x, y));
            return true;
        }
        i = i + 1;
    }
    false
}

fn push_trail_quads<R: Copy>(quads: &mut Vec<Quad<R>>, trail: &VecDeque<(R, R)>, radius: R)
    ensures
        final(quads)@ == old(quads)@ + trail_quads(trail@, radius),
{
    let ghost before = quads@;
    let ghost all = trail_quads(trail@, radius);
    let steps: usize = trail.len();
    let mut i: usize = 0;
    while i < steps
        invariant
            i <= steps,
            steps == trail@.len(),
            all == trail_quads(trail@, radius),
            quads@ == before + all.take(i as int),
        decreases steps - i,
    {
        let place = trail[i];
        quads.push(
            Quad {
                shape: Shape::Trail { x: place.0, y: place.1, radius, step: i + 1, steps },
                look: Look::Flat(BALL_COLOR),
                shaken: true,
            },
        );
        i = i + 1;
        assert(quads@ == before + all.take(i as int));
    }
    assert(all.take(i as int) == all);
}

fn push_brick_quads<R: Copy>(
    quads: &mut Vec<Quad<R>>,
    bricks: &Vec<Brick>,
    flash: &Vec<(i64, i64)>,
)
    ensures
        final(quads)@ == old(quads)@ + brick_quads(bricks@, flash@),
{
    let ghost before = quads@;
    let ghost all = brick_quads::<R>(bricks@, flash@);
    let mut i: usize = 0;
    while i < bricks.len() && i < MAX_BRICKS
        invariant
            i <= bricks@.len(),
            i <= MAX_BRICKS,
            all == brick_quads::<R>(bricks@, flash@),
            quads@ == before + all.take(i as int),
        decreases bricks@.len() - i,
    {
        let brick = bricks[i];
        let look = if contains_place(flash, brick.x, brick.y) {
            Look::Flat(HIT_FLASH_COLOR)
        } else {
            Look::Sprite(brick_sprite(&brick))
        };
        quads.push(Quad { shape: Shape::Brick(brick), look, shaken: true });
        i = i + 1;
        assert(quads@ == before + all.take(i as int));
    }
    assert(all.take(i as int) == all);
}

fn push_ghost_quads<R: Copy>(quads: &mut Vec<Quad<R>>, ghosts: &Vec<Brick>)
    ensures
        final(quads)@ == old(quads)@ + ghost_quads(ghosts@),
{
    let ghost before = quads@;
    let ghost all = ghost_quads::<R>(ghosts@);
    let mut i: usize = 0;
    while i < ghosts.len()
        invariant
            i <= ghosts@.len(),
            all == ghost_quads::<R>(ghosts@),
            quads@ == before + all.take(i as int),
        decreases ghosts@.len() - i,
    {
        quads.push(
            Quad {
                shape: Shape::Brick(ghosts[i]),
                look: Look::Flat(HIT_FLASH_COLOR),
                shaken: true,
            },
        );
        i = i + 1;
        assert(quads@ == before + all.take(i as int));
    }
    assert(all.take(i as int) == all);
}

fn push_extra_quads<R: Copy>(quads: &mut Vec<Quad<R>>, balls: &Vec<Ball<R>>)
    ensures
        final(quads)@ == old(quads)@ + extra_quads(balls@),
{
    let ghost before = quads@;
    let ghost all = extra_quads(balls@);
    let mut i: usize = 0;
    while i < balls.len() && i < MAX_EXTRA_BALLS
        invariant
            i <= balls@.len(),
            i <= MAX_EXTRA_BALLS,
            all == extra_quads(balls@),
            quads@ == before + all.take(i as int),
        decreases balls@.len() - i,
    {
        quads.push(
            Quad {
                shape: Shape::Ball(balls[i]),
                look: Look::Sprite(SpriteId::Ball),
                shaken: true,
            },
        );
        i = i + 1;
        assert(quads@ == before + all.take(i as int));
    }
    assert(all.take(i as int) == all);
}

fn push_capsule_quads<R: Copy>(quads: &mut Vec<Quad<R>>, powerups: &Vec<PowerUp<R>>)
    ensures
        final(quads)@ == old(quads)@ + capsule_quads(powerups@),
{
    let ghost before = quads@;
    let ghost all = capsule_quads(powerups@);
    let mut i: usize = 0;
    while i < powerups.len() && i < MAX_POWERUPS
        invariant
            i <= powerups@.len(),
            i <= MAX_POWERUPS,
            all == capsule_quads(powerups@),
            quads@ == before + all.take(i as int),
        decreases powerups@.len() - i,
    {
        let powerup = powerups[i];
        quads.push(
            Quad {
                shape: Shape::Capsule(powerup),
                look: Look::Flat(powerup_color(powerup.kind)),
                shaken: true,
            },
        );
        i = i + 1;
        assert(quads@ == before + all.take(i as int));
    }
    assert(all.take(i as int) == all);
}

fn push_life_quads<R: Copy>(quads: &mut Vec<Quad<R>>, lives: u32)
    ensures
        final(quads)@ == old(quads)@ + life_quads(lives),
{
    let ghost before = quads@;
    let ghost all = life_quads::<R>(lives);
    let count: i64 = if lives > MAX_LIFE_ICONS as u32 {
        MAX_LIFE_ICONS as i64
    } else {
        lives as i64
    };
    let mut i: i64 = 0;
    while i < count
        invariant
            0 <= i <= count <= MAX_LIFE_ICONS,
            all == life_quads::<R>(lives),
            all.len() == count,
            quads@ == before + all.take(i as int),
        decreases count - i,
    {
        assert(0 <= i * (LIFE_ICON_SIZE + LIFE_ICON_GAP) <= MAX_LIFE_ICONS * (LIFE_ICON_SIZE
            + LIFE_ICON_GAP)) by (nonlinear_arith)
            requires
                0 <= i <= MAX_LIFE_ICONS,
        ;
        let x: i64 = PLAYFIELD_WIDTH - HUD_MARGIN - LIFE_ICON_SIZE / 2 - i * (LIFE_ICON_SIZE
            + LIFE_ICON_GAP);
        let y: i64 = HUD_MARGIN + LIFE_ICON_SIZE / 2;
        quads.push(
            Quad { shape: Shape::LifeIcon { x, y }, look: Look::Flat(BALL_COLOR), shaken: false },
        );
        i = i + 1;
        assert(quads@ == before + all.take(i as int));
    }
    assert(all.take(i as int) == all);
}

/// Lists the quads of a frame, from the back to the front.
pub fn frame_quads<R: Copy>(
    game: &Game<R>,
    drawn: &RenderState<R>,
    trail: &VecDeque<(R, R)>,
    diff: &FrameDiff,
) -> (quads: Vec<Quad<R>>)
    ensures
        quads@ == frame(*game, *drawn, trail@, *diff),
{
    let mut quads: Vec<Quad<R>> = Vec::new();
    quads.push(
        Quad {
            shape: Shape::Paddle(drawn.paddle),
            look: Look::Sprite(SpriteId::Paddle),
            shaken: true,
        },
    );
    push_trail_quads(&mut quads, trail, drawn.ball.radius);
    let ghost behind = quads@;
    quads.push(
        Quad { shape: Shape::Ball(drawn.ball), look: Look::Sprite(SpriteId::Ball), shaken: true },
    );
    assert(quads@ == behind + seq![ball_quad(drawn.ball)]);
    push_brick_quads(&mut quads, &game.bricks, &diff.hit_flash);
    push_ghost_quads(&mut quads, &diff.ghosts);
    push_extra_quads(&mut quads, &game.extra_balls);
    push_capsule_quads(&mut quads, &game.powerups);
    let ghost scene = quads@;
    if game.state != GameState::Playing {
        quads.push(Quad { shape: Shape::Screen, look: Look::Flat(SCRIM_COLOR), shaken: false });
    }
    assert(quads@ == scene + scrim_quads(game.state));
    push_life_quads(&mut quads, game.lives);
    quads
}

/// No frame has more quads than there is room for.
pub proof fn law_frames_fit<R>(
    game: Game<R>,
    drawn: RenderState<R>,
    trail: Seq<(R, R)>,
    diff: FrameDiff,
)
    requires
        trail.len() <= TRAIL_LEN,
        diff.ghosts@.len() <= MAX_DESTROY_GHOSTS,
    ensures
        frame(game, drawn, trail, diff).len() <= MAX_QUADS,
{
}

/// The trail never grows beyond its length.
pub proof fn law_trails_stay_short<R>(trail: Seq<(R, R)>, ball: Ball<R>)
    requires
        trail.len() <= TRAIL_LEN,
    ensures
        trail_after(trail, ball).len() <= TRAIL_LEN,
        !ball.attached ==> trail_after(trail, ball).last() == (ball.x, ball.y),
{
}

/// How a line of text is placed between the left and the right edge.
#[derive(Debug, Clone, Copy, PartialEq, Eq, Structural)]
pub enum Align {
    Left,
    Center,
}

/// A line of text. Sizes are in pixels of the window, and the place of its
/// top-left corner in pixels of the playfield.
#[derive(Debug)]
pub struct Line {
    pub text: String,
    pub font_size: u32,
    pub line_height: u32,
    pub align: Align,
    pub left: i64,
    pub top: i64,
    /// Red, green and blue.
    pub color: [u8; 3],
}

/// The contents of a [`Line`].
pub struct LineView {
    pub text: Seq<char>,
    pub font_size: u32,
    pub line_height: u32,
    pub align: Align,
    pub left: i64,
    pub top: i64,
    pub color: [u8; 3],
}

impl View for Line {
    type V = LineView;

    open spec fn view(&self) -> LineView {
        LineView {
            text: self.text@,
            font_size: self.font_size,
            line_height: self.line_height,
            align: self.align,
            left: self.left,
            top: self.top,
            color: self.color,
        }
    }
}

pub const HUD_FONT_SIZE: u32 = 22;

pub const HUD_LINE_HEIGHT: u32 = 26;

pub const TITLE_FONT_SIZE: u32 = 52;

pub const TITLE_LINE_HEIGHT: u32 = 58;

pub const DETAIL_FONT_SIZE: u32 = 20;

pub const DETAIL_LINE_HEIGHT: u32 = 26;

/// Heights of the overlay's lines from the middle of the playfield.
pub const TITLE_OFFSET_Y: i64 = -40;

pub const DETAIL_OFFSET_Y: i64 = 30;

pub const OFFER_OFFSET_Y: i64 = 60;

pub const HUD_TEXT_COLOR: [u8; 3] = [230, 232, 240];

pub const TITLE_TEXT_COLOR: [u8; 3] = [255, 210, 90];

pub open spec fn score_line(score: u32) -> LineView {
    LineView {
        text: labelled("Score: "@, score as nat),
        font_size: HUD_FONT_SIZE,
        line_height: HUD_LINE_HEIGHT,
        align: Align::Left,
        left: HUD_MARGIN,
        top: HUD_MARGIN,
        color: HUD_TEXT_COLOR,
    }
}

pub open spec fn level_line(level: usize) -> LineView {
    LineView {
        text: labelled("Level "@, level as nat),
        font_size: HUD_FONT_SIZE,
        line_height: HUD_LINE_HEIGHT,
        align: Align::Center,
        left: 0,
        top: HUD_MARGIN,
        color: HUD_TEXT_COLOR,
    }
}

pub open spec fn title_line(title: Seq<char>) -> LineView {
    LineView {
        text: title,
        font_size: TITLE_FONT_SIZE,
        line_height: TITLE_LINE_HEIGHT,
        align: Align::Center,
        left: 0,
        top: (PLAYFIELD_HEIGHT / 2 + TITLE_OFFSET_Y) as i64,
        color: TITLE_TEXT_COLOR,
    }
}

pub open spec fn detail_line(detail: Seq<char>) -> LineView {
    LineView {
        text: detail,
        font_size: DETAIL_FONT_SIZE,
        line_height: DETAIL_LINE_HEIGHT,
        align: Align::Center,
        left: 0,
        top: (PLAYFIELD_HEIGHT / 2 + DETAIL_OFFSET_Y) as i64,
        color: HUD_TEXT_COLOR,
    }
}

/// The line of the menu that offers a choice of random levels.
pub open spec fn offer_line() -> LineView {
    LineView {
        text: "R: RANDOM10"@,
        font_size: DETAIL_FONT_SIZE,
        line_height: DETAIL_LINE_HEIGHT,
        align: Align::Center,
        left: 0,
        top: (PLAYFIELD_HEIGHT / 2 + OFFER_OFFSET_Y) as i64,
        color: HUD_TEXT_COLOR,
    }
}

/// The lines of a frame: the score, the level, the overlay if there is one, and
/// in the menu the offer of random levels if a set is loaded.
pub open spec fn frame_text(
    state: GameState,
    score: u32,
    level: usize,
    set_loaded: bool,
) -> Seq<LineView> {
    seq![score_line(score), level_line(level)] + (match overlay_of(state, score) {
        Some((title, detail)) => seq![title_line(title), detail_line(detail)],
        None => Seq::empty(),
    }) + if state == GameState::Menu && set_loaded {
        seq![offer_line()]
    } else {
        Seq::empty()
    }
}

/// The contents of each of some lines.
pub open spec fn line_views(lines: Seq<Line>) -> Seq<LineView> {
    lines.map_values(|line: Line| line@)
}

/// Lists the lines of text of a frame.
pub fn frame_lines<R>(game: &Game<R>, set_loaded: bool) -> (lines: Vec<Line>)
    ensures
        line_views(lines@) == frame_text(game.state, game.score, game.level, set_loaded),
{
    let mut lines: Vec<Line> = Vec::new();
    lines.push(
        Line {
            text: label_number("Score: ", game.score as u64),
            font_size: HUD_FONT_SIZE,
            line_height: HUD_LINE_HEIGHT,
            align: Align::Left,
            left: HUD_MARGIN,
            top: HUD_MARGIN,
            color: HUD_TEXT_COLOR,
        },
    );
    lines.push(
        Line {
            text: label_number("Level ", game.level as u64),
            font_size: HUD_FONT_SIZE,
            line_height: HUD_LINE_HEIGHT,
            align: Align::Center,
            left: 0,
            top: HUD_MARGIN,
            color: HUD_TEXT_COLOR,
        },
    );
    if let Some((title, detail)) = overlay_text(game) {
        lines.push(
            Line {
                text: title.to_owned(),
                font_size: TITLE_FONT_SIZE,
                line_height: TITLE_LINE_HEIGHT,
                align: Align::Center,
                left: 0,
                top: PLAYFIELD_HEIGHT / 2 + TITLE_OFFSET_Y,
                color: TITLE_TEXT_COLOR,
            },
        );
        lines.push(
            Line {
                text: detail,
                font_size: DETAIL_FONT_SIZE,
                line_height: DETAIL_LINE_HEIGHT,
                align: Align::Center,
                left: 0,
                top: PLAYFIELD_HEIGHT / 2 + DETAIL_OFFSET_Y,
                color: HUD_TEXT_COLOR,
            },
        );
    }
    if game.state == GameState::Menu && set_loaded {
        lines.push(
            Line {
                text: "R: RANDOM10".to_owned(),
                font_size: DETAIL_FONT_SIZE,
                line_height: DETAIL_LINE_HEIGHT,
                align: Align::Center,
                left: 0,
                top: PLAYFIELD_HEIGHT / 2 + OFFER_OFFSET_Y,
                color: HUD_TEXT_COLOR,
            },
        );
    }
    lines
}

} // verus!
