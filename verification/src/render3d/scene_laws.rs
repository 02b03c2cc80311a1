//! What a frame of the view in depth holds of everything that is to be seen,
//! and where in it.

use vstd::prelude::*;

use crate::assets;
use crate::events::PowerUpKind;
use crate::frame_laws;
use crate::game::{Brick, Game};
use crate::levels::BrickKind;
use crate::render;
use crate::render::RenderState;
use crate::render3d;
use crate::render3d::atlas;
use crate::render3d::{Base, CUBE_INDICES, CUBE_VERTICES};

verus! {

/// The paddle comes first, as it is between two ticks.
pub proof fn law_scenes_show_the_paddle<R>(game: Game<R>, drawn: RenderState<R>)
    ensures
        ({
            let slabs = render3d::scene_slabs(game, drawn);
            let bricks = frame_laws::least(game.bricks@.len() as int, 112);
            let capsules = frame_laws::least(game.powerups@.len() as int, 16);
            &&& slabs.len() == 1 + bricks + capsules + 3
            &&& slabs[0].base == Base::Paddle(drawn.paddle)
            &&& slabs[0].thickness == 18
            &&& slabs[0].color == render3d::PADDLE_COLOR
        }),
{
}

/// The slab of each brick, up to the largest number that is drawn, covers the
/// rectangle that the ball bounces off: it has the center, the width and the
/// height of that very brick. It is as thick as a brick is high, and its color
/// tells the kind of the brick and whether an armored one was hit.
pub proof fn law_scenes_show_every_brick<R>(game: Game<R>, drawn: RenderState<R>, i: int)
    requires
        0 <= i < game.bricks@.len(),
        i < 112,
    ensures
        ({
            let slab = render3d::scene_slabs(game, drawn)[1 + i];
            let brick = game.bricks@[i];
            &&& slab.base matches Base::Brick(base) && {
                &&& base.x == brick.x
                &&& base.y == brick.y
                &&& base.width == brick.width
                &&& base.height == brick.height
                &&& base == brick
            }
            &&& slab.thickness == 22
            &&& slab.color == match brick.kind {
                BrickKind::Normal => render3d::NORMAL_BRICK_COLOR,
                BrickKind::Armored => if brick.hits_remaining < 2 {
                    render3d::ARMORED_BRICK_COLOR_HIT
                } else {
                    render3d::ARMORED_BRICK_COLOR
                },
                BrickKind::Indestructible => render3d::INDESTRUCTIBLE_BRICK_COLOR,
            }
        }),
{
}

/// The slab of each capsule, up to the largest number that is drawn, covers that
/// very capsule, is as thick as the capsule is wide, and has the color of its
/// kind.
pub proof fn law_scenes_show_every_capsule<R>(game: Game<R>, drawn: RenderState<R>, i: int)
    requires
        0 <= i < game.powerups@.len(),
        i < 16,
    ensures
        ({
            let bricks = frame_laws::least(game.bricks@.len() as int, 112);
            let slab = render3d::scene_slabs(game, drawn)[1 + bricks + i];
            &&& slab.base == Base::Capsule(game.powerups@[i])
            &&& slab.thickness == 2 * render::POWERUP_HALF_SIZE
            &&& slab.color == match game.powerups@[i].kind {
                PowerUpKind::Widen => render::POWERUP_WIDEN_COLOR,
                PowerUpKind::Slow => render::POWERUP_SLOW_COLOR,
                PowerUpKind::Multiball => render::POWERUP_MULTIBALL_COLOR,
            }
        }),
{
}

/// The walls enclose the playfield on three sides without standing on it: each
/// of the first two runs along a whole side, one ends where the playfield begins
/// and the other begins where it ends, and the third runs along the top.
pub proof fn law_walls_enclose_the_playfield<R>(game: Game<R>, drawn: RenderState<R>, wall: int)
    requires
        0 <= wall < 3,
    ensures
        ({
            let slabs = render3d::scene_slabs(game, drawn);
            let slab = slabs[slabs.len() - 3 + wall];
            &&& slab.thickness == 46
            &&& slab.color == render3d::WALL_COLOR
            &&& slab.base matches Base::Wall { x, y, width, height } && {
                &&& wall < 2 ==> width == 20 && 2 * y - height == 0 && 2 * y + height == 2 * 600
                &&& wall == 0 ==> 2 * x + width == 0
                &&& wall == 1 ==> 2 * x - width == 2 * 800
                &&& wall == 2 ==> height == 20 && 2 * x - width == 0 && 2 * x + width == 2 * 800
                    && 2 * y + height == 0
            }
        }),
{
}

/// The main ball comes first, as it is between two ticks, and behind it each
/// extra ball, up to the largest number that is drawn, as it is.
pub proof fn law_scenes_show_every_ball<R>(game: Game<R>, drawn: RenderState<R>, i: int)
    ensures
        ({
            let balls = render3d::scene_balls(game, drawn);
            let extras = frame_laws::least(game.extra_balls@.len() as int, 16);
            &&& balls.len() == 1 + extras
            &&& balls[0] == drawn.ball
            &&& 0 <= i < extras ==> balls[1 + i] == game.extra_balls@[i]
        }),
{
}

/// The color of a brick depends on its kind and, if it is armored, on whether it
/// was hit, and on nothing else.
pub proof fn law_colors_tell_bricks_apart(first: Brick, second: Brick)
    ensures
        first.kind == second.kind && first.hits_remaining == second.hits_remaining
            ==> render3d::color_of(first) == render3d::color_of(second),
        first.kind == second.kind && first.kind != BrickKind::Armored ==> render3d::color_of(first)
            == render3d::color_of(second),
        first.kind == BrickKind::Armored && second.kind == BrickKind::Armored
            && first.hits_remaining >= 2 && second.hits_remaining < 2 ==> render3d::color_of(
            first,
        )@ != render3d::color_of(second)@,
{
    assert(render3d::ARMORED_BRICK_COLOR@[0] == 30);
    assert(render3d::ARMORED_BRICK_COLOR_HIT@[0] == 90);
}

/// The capsule of a kind has a color of its own, the same wherever it is drawn.
pub proof fn law_capsules_have_the_color_of_their_kind(kind: PowerUpKind)
    ensures
        render::capsule_color(kind) == match kind {
            PowerUpKind::Widen => render::POWERUP_WIDEN_COLOR,
            PowerUpKind::Slow => render::POWERUP_SLOW_COLOR,
            PowerUpKind::Multiball => render::POWERUP_MULTIBALL_COLOR,
        },
{
}

/// Coordinate `axis` of the corner that entry `k` of the triangles refers to.
pub open spec fn corner(k: int, axis: int) -> int {
    CUBE_VERTICES@[CUBE_INDICES@[k] as int].0@[axis] as int
}

/// Coordinate `axis` of the normal of triangle `t`, by its winding.
pub open spec fn winding(t: int, axis: int) -> int {
    let p = (axis + 1) % 3;
    let q = (axis + 2) % 3;
    let a = (corner(3 * t + 1, p) - corner(3 * t, p));
    let b = (corner(3 * t + 2, q) - corner(3 * t, q));
    let c = (corner(3 * t + 1, q) - corner(3 * t, q));
    let d = (corner(3 * t + 2, p) - corner(3 * t, p));
    a * b - c * d
}

/// Every triangle of the cube is wound so that it looks the way that its face
/// does.
pub proof fn law_cube_triangles_look_outwards(t: int, axis: int)
    requires
        0 <= t < 12,
        0 <= axis < 3,
    ensures
        winding(t, axis) == 4 * CUBE_VERTICES@[CUBE_INDICES@[3 * t] as int].1@[axis],
{
    lemma_winding(t, axis);
}

proof fn lemma_winding(t: int, axis: int)
    requires
        0 <= t < 12,
        0 <= axis < 3,
    ensures
        winding(t, axis) == 4 * CUBE_VERTICES@[CUBE_INDICES@[3 * t] as int].1@[axis],
{
    let p = (axis + 1) % 3;
    let q = (axis + 2) % 3;
    let a = (corner(3 * t + 1, p) - corner(3 * t, p));
    let b = (corner(3 * t + 2, q) - corner(3 * t, q));
    let c = (corner(3 * t + 1, q) - corner(3 * t, q));
    let d = (corner(3 * t + 2, p) - corner(3 * t, p));
    assert(a == -2 || a == 0 || a == 2);
    assert(c == -2 || c == 0 || c == 2);
    assert(a * b - c * d == 4 * CUBE_VERTICES@[CUBE_INDICES@[3 * t] as int].1@[axis]);
}

/// The two triangles of the quad in sector `sector` of ring `ring` join its four
/// corners: two of one ring and the two of the next ring that lie behind them.
pub proof fn law_sphere_quads_join_two_rings(stacks: int, sectors: int, ring: int, sector: int)
    requires
        0 <= ring < stacks,
        0 <= sector < sectors,
        render3d::sphere_vertex_count(stacks, sectors) <= 0x1_0000,
    ensures
        ({
            let indices = render3d::sphere_triangles(stacks, sectors);
            let at = 6 * (ring * sectors + sector);
            let a = ring * (sectors + 1) + sector;
            let b = a + sectors + 1;
            &&& 0 <= at && at + 6 <= indices.len()
            &&& indices[at] == a
            &&& indices[at + 1] == b
            &&& indices[at + 2] == a + 1
            &&& indices[at + 3] == a + 1
            &&& indices[at + 4] == b
            &&& indices[at + 5] == b + 1
        }),
    decreases stacks,
{
    let above = render3d::sphere_triangles(stacks - 1, sectors);
    let last = render3d::ring_indices(stacks - 1, sectors, sectors);
    render3d::law_sphere_triangle_count(stacks - 1, sectors);
    assert(0 <= ring * sectors) by (nonlinear_arith)
        requires
            0 <= ring,
            0 <= sectors,
    ;
    if ring < stacks - 1 {
        assert(stacks * (sectors + 1) <= (stacks + 1) * (sectors + 1)) by (nonlinear_arith)
            requires
                0 <= sectors,
        ;
        law_sphere_quads_join_two_rings(stacks - 1, sectors, ring, sector);
    } else {
        assert(6 * (ring * sectors) == above.len());
        lemma_ring_quads(stacks, sectors, ring, sectors, sector);
    }
}

proof fn lemma_ring_quads(stacks: int, sectors: int, ring: int, count: int, sector: int)
    requires
        0 <= ring < stacks,
        0 <= sector < count <= sectors,
        render3d::sphere_vertex_count(stacks, sectors) <= 0x1_0000,
    ensures
        ({
            let indices = render3d::ring_indices(ring, sectors, count);
            let a = ring * (sectors + 1) + sector;
            let b = a + sectors + 1;
            &&& indices.len() == 6 * count
            &&& indices[6 * sector] == a
            &&& indices[6 * sector + 1] == b
            &&& indices[6 * sector + 2] == a + 1
            &&& indices[6 * sector + 3] == a + 1
            &&& indices[6 * sector + 4] == b
            &&& indices[6 * sector + 5] == b + 1
        }),
    decreases count,
{
    assert(0 <= ring * (sectors + 1)) by (nonlinear_arith)
        requires
            0 <= ring,
            0 <= sectors,
    ;
    assert((ring + 1) * (sectors + 1) == ring * (sectors + 1) + sectors + 1) by (nonlinear_arith);
    assert((ring + 2) * (sectors + 1) <= (stacks + 1) * (sectors + 1)) by (nonlinear_arith)
        requires
            ring + 2 <= stacks + 1,
            0 <= sectors,
    ;
    assert((ring + 2) * (sectors + 1) == (ring + 1) * (sectors + 1) + sectors + 1)
        by (nonlinear_arith);
    if sector < count - 1 {
        lemma_ring_quads(stacks, sectors, ring, count - 1, sector);
    } else if count > 1 {
        lemma_ring_quads(stacks, sectors, ring, count - 1, 0);
    } else {
        assert(render3d::ring_indices(ring, sectors, 0) == Seq::<u16>::empty());
    }
}

/// A sphere has a vertex more than quads in each ring, and a ring of vertices
/// more than of quads.
pub proof fn law_spheres_have_a_vertex_more_than_quads(stacks: int, sectors: int)
    ensures
        render3d::sphere_vertex_count(stacks, sectors) == stacks * sectors + stacks + sectors + 1,
{
    assert((stacks + 1) * (sectors + 1) == stacks * sectors + stacks + sectors + 1)
        by (nonlinear_arith);
}

/// Whether a byte is the one nearest to a share of full in percent.
pub open spec fn byte_of_percent(byte: u8, percent: int) -> bool {
    -100 <= 2 * (100 * byte - 255 * percent) <= 100
}

/// Whether a color in percent has the first three bytes of another.
pub open spec fn same_color(bytes: [u8; 4], percents: [u8; 4]) -> bool {
    &&& byte_of_percent(bytes@[0], percents@[0] as int)
    &&& byte_of_percent(bytes@[1], percents@[1] as int)
    &&& byte_of_percent(bytes@[2], percents@[2] as int)
    &&& bytes@[3] == 255 && percents@[3] == 100
}

/// Both views show a brick in the same color: the slab of a brick has that of
/// its flat sprite and of its beveled panel.
pub proof fn law_both_views_agree_on_bricks(brick: Brick)
    ensures
        ({
            let sprite = render::sprite_of(brick);
            let flat = assets::PLACEHOLDER_COLORS@[assets::sprite_number(sprite)];
            let face = match sprite {
                assets::SpriteId::BrickNormal => atlas::SpriteId::BrickNormal,
                assets::SpriteId::BrickArmoredIntact => atlas::SpriteId::BrickArmoredIntact,
                assets::SpriteId::BrickArmoredHit => atlas::SpriteId::BrickArmoredHit,
                _ => atlas::SpriteId::BrickIndestructible,
            };
            let panel = atlas::face_color(atlas::sprite_number(face));
            let slab = render3d::color_of(brick);
            &&& flat.0 == sprite
            &&& same_color(flat.1, slab)
            &&& panel[0] == slab@[0] && panel[1] == slab@[1] && panel[2] == slab@[2]
        }),
{
}

/// Both views show the ball and the paddle in the same color.
pub proof fn law_both_views_agree_on_the_ball_and_the_paddle()
    ensures
        same_color(assets::PLACEHOLDER_COLORS@[0].1, render3d::PADDLE_COLOR),
        same_color(assets::PLACEHOLDER_COLORS@[1].1, render::BALL_COLOR),
        assets::PLACEHOLDER_COLORS@[0].0 == assets::SpriteId::Paddle,
        assets::PLACEHOLDER_COLORS@[1].0 == assets::SpriteId::Ball,
{
}

/// What flashes is all white, and what dims the scene is black and lets a third
/// of it through. A widening is mostly green, a slow-down mostly blue, and a
/// multiball least green. The walls are dark.
pub proof fn law_the_other_colors()
    ensures
        render::HIT_FLASH_COLOR@ == seq![100u8, 100u8, 100u8, 100u8],
        render::SCRIM_COLOR@ == seq![0u8, 0u8, 0u8, 62u8],
        render::POWERUP_WIDEN_COLOR@ == seq![35u8, 85u8, 40u8, 100u8],
        render::POWERUP_SLOW_COLOR@ == seq![35u8, 55u8, 95u8, 100u8],
        render::POWERUP_MULTIBALL_COLOR@ == seq![80u8, 35u8, 90u8, 100u8],
        render3d::WALL_COLOR@ == seq![16u8, 18u8, 24u8, 100u8],
        render::HUD_TEXT_COLOR@ == seq![230u8, 232u8, 240u8],
        render::TITLE_TEXT_COLOR@ == seq![255u8, 210u8, 90u8],
        render::POWERUP_HALF_SIZE == 9,
{
}

} // verus!
