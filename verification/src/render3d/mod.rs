//! What a frame of the view in depth shows: slabs for the paddle, the bricks,
//! the capsules and the walls, and spheres for the balls.
//!
//! Everything stands where it stands on the playfield; a slab only gets a
//! thickness on top of it.

pub mod atlas;
pub mod panel_laws;
pub mod scene_laws;

use vstd::prelude::*;

use crate::game::{
    Ball, Brick, Game, Paddle, PowerUp, PLAYFIELD_HEIGHT, PLAYFIELD_WIDTH,
};
use crate::levels::BrickKind;
use crate::render;
use crate::render::{
    powerup_color, RenderState, BALL_COLOR, MAX_BRICKS, MAX_EXTRA_BALLS, MAX_POWERUPS,
    POWERUP_HALF_SIZE,
};

verus! {

pub const BRICK_THICKNESS: i64 = 22;

pub const PADDLE_THICKNESS: i64 = 18;

/// Width of a wall, seen from above.
pub const WALL_THICKNESS: i64 = 20;

pub const WALL_HEIGHT: i64 = 46;

/// The walls at the left, the right and the top.
pub const WALL_COUNT: usize = 3;

/// Largest number of slabs of a frame.
pub const MAX_CUBE_INSTANCES: usize = 132;

/// Largest number of spheres of a frame.
pub const MAX_SPHERE_INSTANCES: usize = 17;

pub const PADDLE_COLOR: [u8; 4] = [80, 85, 95, 100];

pub const NORMAL_BRICK_COLOR: [u8; 4] = [85, 25, 25, 100];

pub const ARMORED_BRICK_COLOR: [u8; 4] = [30, 45, 68, 100];

pub const ARMORED_BRICK_COLOR_HIT: [u8; 4] = [90, 60, 15, 100];

pub const INDESTRUCTIBLE_BRICK_COLOR: [u8; 4] = [25, 25, 28, 100];

pub const WALL_COLOR: [u8; 4] = [16, 18, 24, 100];

/// The color of a brick. An armored one changes with its first hit.
pub open spec fn color_of(brick: Brick) -> [u8; 4] {
    match brick.kind {
        BrickKind::Normal => NORMAL_BRICK_COLOR,
        BrickKind::Armored => if brick.hits_remaining >= 2 {
            ARMORED_BRICK_COLOR
        } else {
            ARMORED_BRICK_COLOR_HIT
        },
        BrickKind::Indestructible => INDESTRUCTIBLE_BRICK_COLOR,
    }
}

/// The color that a brick is drawn with.
pub fn brick_color(brick: &Brick) -> (color: [u8; 4])
    ensures
        color == color_of(*brick),
{
    match brick.kind {
        BrickKind::Normal => NORMAL_BRICK_COLOR,
        BrickKind::Armored => if brick.hits_remaining >= 2 {
            ARMORED_BRICK_COLOR
        } else {
            ARMORED_BRICK_COLOR_HIT
        },
        BrickKind::Indestructible => INDESTRUCTIBLE_BRICK_COLOR,
    }
}

/// Bricks of different kinds have different colors.
pub proof fn law_brick_colors_are_distinct(first: Brick, second: Brick)
    requires
        first.kind != second.kind,
    ensures
        color_of(first)@ != color_of(second)@,
{
    assert(NORMAL_BRICK_COLOR@[0] == 85);
    assert(ARMORED_BRICK_COLOR@[0] == 30);
    assert(ARMORED_BRICK_COLOR_HIT@[0] == 90);
    assert(INDESTRUCTIBLE_BRICK_COLOR@[0] == 25);
}

/// What a slab covers of the playfield.
#[derive(Debug, Clone, Copy, PartialEq)]
pub enum Base<R> {
    Paddle(Paddle<R>),
    Brick(Brick),
    /// The square of a capsule.
    Capsule(PowerUp<R>),
    /// A rectangle with its center at `x`, `y`.
    Wall { x: i64, y: i64, width: i64, height: i64 },
}

/// A slab on the playfield.
#[derive(Debug, Clone, Copy, PartialEq)]
pub struct Slab<R> {
    pub base: Base<R>,
    pub thickness: i64,
    pub color: [u8; 4],
}

/// The slabs and the balls of a frame.
#[derive(Debug)]
pub struct Scene<R> {
    pub slabs: Vec<Slab<R>>,
    pub balls: Vec<Ball<R>>,
    pub ball_color: [u8; 4],
}

pub open spec fn paddle_slab<R>(paddle: Paddle<R>) -> Slab<R> {
    Slab { base: Base::Paddle(paddle), thickness: PADDLE_THICKNESS, color: PADDLE_COLOR }
}

pub open spec fn brick_slab<R>(brick: Brick) -> Slab<R> {
    Slab { base: Base::Brick(brick), thickness: BRICK_THICKNESS, color: color_of(brick) }
}

pub open spec fn capsule_slab<R>(powerup: PowerUp<R>) -> Slab<R> {
    Slab {
        base: Base::Capsule(powerup),
        thickness: (2 * POWERUP_HALF_SIZE) as i64,
        color: render::capsule_color(powerup.kind),
    }
}

/// A wall around the playfield.
pub open spec fn wall_slab<R>(x: int, y: int, width: int, height: int) -> Slab<R> {
    Slab {
        base: Base::Wall { x: x as i64, y: y as i64, width: width as i64, height: height as i64 },
        thickness: WALL_HEIGHT,
        color: WALL_COLOR,
    }
}

/// The walls at the left, the right and the top, just outside of the playfield.
pub open spec fn wall_slabs<R>() -> Seq<Slab<R>> {
    let half = WALL_THICKNESS / 2;
    let side = PLAYFIELD_HEIGHT as int;
    seq![
        wall_slab(-half, side / 2, WALL_THICKNESS as int, side),
        wall_slab(PLAYFIELD_WIDTH + half, side / 2, WALL_THICKNESS as int, side),
        wall_slab(PLAYFIELD_WIDTH / 2, -half, PLAYFIELD_WIDTH as int, WALL_THICKNESS as int),
    ]
}

/// The slabs of a frame.
pub open spec fn scene_slabs<R>(game: Game<R>, drawn: RenderState<R>) -> Seq<Slab<R>> {
    seq![paddle_slab(drawn.paddle)] + render::at_most(
        game.bricks@,
        MAX_BRICKS as int,
    ).map_values(|brick: Brick| brick_slab(brick)) + render::at_most(
        game.powerups@,
        MAX_POWERUPS as int,
    ).map_values(|powerup: PowerUp<R>| capsule_slab(powerup)) + wall_slabs()
}

/// The balls of a frame, the main ball first.
pub open spec fn scene_balls<R>(game: Game<R>, drawn: RenderState<R>) -> Seq<Ball<R>> {
    seq![drawn.ball] + render::at_most(game.extra_balls@, MAX_EXTRA_BALLS as int)
}

fn push_brick_slabs<R: Copy>(slabs: &mut Vec<Slab<R>>, bricks: &Vec<Brick>)
    ensures
        final(slabs)@ == old(slabs)@ + render::at_most(bricks@, MAX_BRICKS as int).map_values(
            |brick: Brick| brick_slab(brick),
        ),
{
    let ghost before = slabs@;
    let ghost all: Seq<Slab<R>> = render::at_most(bricks@, MAX_BRICKS as int).map_values(
        |brick: Brick| brick_slab(brick),
    );
    let mut i: usize = 0;
    while i < bricks.len() && i < MAX_BRICKS
        invariant
            i <= bricks@.len(),
            i <= MAX_BRICKS,
            all == render::at_most(bricks@, MAX_BRICKS as int).map_values(
                |brick: Brick| brick_slab::<R>(brick),
            ),
            slabs@ == before + all.take(i as int),
        decreases bricks@.len() - i,
    {
        let brick = bricks[i];
        slabs.push(
            Slab {
                base: Base::Brick(brick),
                thickness: BRICK_THICKNESS,
                color: brick_color(&brick),
            },
        );
        i = i + 1;
        assert(slabs@ == before + all.take(i as int));
    }
    assert(all.take(i as int) == all);
}

fn push_capsule_slabs<R: Copy>(slabs: &mut Vec<Slab<R>>, powerups: &Vec<PowerUp<R>>)
    ensures
        final(slabs)@ == old(slabs)@ + render::at_most(powerups@, MAX_POWERUPS as int).map_values(
            |powerup: PowerUp<R>| capsule_slab(powerup),
        ),
{
    let ghost before = slabs@;
    let ghost all = render::at_most(powerups@, MAX_POWERUPS as int).map_values(
        |powerup: PowerUp<R>| capsule_slab(powerup),
    );
    let mut i: usize = 0;
    while i < powerups.len() && i < MAX_POWERUPS
        invariant
            i <= powerups@.len(),
            i <= MAX_POWERUPS,
            all == render::at_most(powerups@, MAX_POWERUPS as int).map_values(
                |powerup: PowerUp<R>| capsule_slab(powerup),
            ),
            slabs@ == before + all.take(i as int),
        decreases powerups@.len() - i,
    {
        let powerup = powerups[i];
        slabs.push(
            Slab {
                base: Base::Capsule(powerup),
                thickness: 2 * POWERUP_HALF_SIZE,
                color: powerup_color(powerup.kind),
            },
        );
        i = i + 1;
        assert(slabs@ == before + all.take(i as int));
    }
    assert(all.take(i as int) == all);
}

fn wall<R>(x: i64, y: i64, width: i64, height: i64) -> (slab: Slab<R>)
    ensures
        slab == wall_slab::<R>(x as int, y as int, width as int, height as int),
{
    Slab {
        base: Base::Wall { x, y, width, height },
        thickness: WALL_HEIGHT,
        color: WALL_COLOR,
    }
}

/// Lists what a frame shows. The main ball and the paddle are drawn between two
/// ticks, and everything else as it is.
pub fn frame_scene<R: Copy>(game: &Game<R>, drawn: &RenderState<R>) -> (scene: Scene<R>)
    ensures
        scene.slabs@ == scene_slabs(*game, *drawn),
        scene.balls@ == scene_balls(*game, *drawn),
        scene.ball_color == BALL_COLOR,
{
    let mut slabs: Vec<Slab<R>> = Vec::new();
    slabs.push(
        Slab {
            base: Base::Paddle(drawn.paddle),
            thickness: PADDLE_THICKNESS,
            color: PADDLE_COLOR,
        },
    );
    push_brick_slabs(&mut slabs, &game.bricks);
    push_capsule_slabs(&mut slabs, &game.powerups);
    let ghost bodies = slabs@;
    let half: i64 = WALL_THICKNESS / 2;
    slabs.push(wall(-half, PLAYFIELD_HEIGHT / 2, WALL_THICKNESS, PLAYFIELD_HEIGHT));
    slabs.push(
        wall(PLAYFIELD_WIDTH + half, PLAYFIELD_HEIGHT / 2, WALL_THICKNESS, PLAYFIELD_HEIGHT),
    );
    slabs.push(wall(PLAYFIELD_WIDTH / 2, -half, PLAYFIELD_WIDTH, WALL_THICKNESS));
    assert(slabs@ == bodies + wall_slabs());

    let mut balls: Vec<Ball<R>> = Vec::new();
    balls.push(drawn.ball);
    let ghost extra = render::at_most(game.extra_balls@, MAX_EXTRA_BALLS as int);
    let mut i: usize = 0;
    while i < game.extra_balls.len() && i < MAX_EXTRA_BALLS
        invariant
            i <= game.extra_balls@.len(),
            i <= MAX_EXTRA_BALLS,
            extra == render::at_most(game.extra_balls@, MAX_EXTRA_BALLS as int),
            balls@ == seq![drawn.ball] + extra.take(i as int),
        decreases game.extra_balls@.len() - i,
    {
        balls.push(game.extra_balls[i]);
        i = i + 1;
        assert(balls@ == seq![drawn.ball] + extra.take(i as int));
    }
    assert(extra.take(i as int) == extra);
    Scene { slabs, balls, ball_color: BALL_COLOR }
}

/// No frame has more slabs or balls than there is room for.
pub proof fn law_scenes_fit<R>(game: Game<R>, drawn: RenderState<R>)
    ensures
        scene_slabs(game, drawn).len() <= MAX_CUBE_INSTANCES,
        scene_balls(game, drawn).len() <= MAX_SPHERE_INSTANCES,
{
}

/// The corners of the unit cube, four for each face, each with the direction
/// that its face looks in.
pub const CUBE_VERTICES: [([i8; 3], [i8; 3]); 24] = [
    ([1, -1, -1], [1, 0, 0]),
    ([1, 1, -1], [1, 0, 0]),
    ([1, 1, 1], [1, 0, 0]),
    ([1, -1, 1], [1, 0, 0]),
    ([-1, -1, 1], [-1, 0, 0]),
    ([-1, 1, 1], [-1, 0, 0]),
    ([-1, 1, -1], [-1, 0, 0]),
    ([-1, -1, -1], [-1, 0, 0]),
    ([-1, 1, -1], [0, 1, 0]),
    ([-1, 1, 1], [0, 1, 0]),
    ([1, 1, 1], [0, 1, 0]),
    ([1, 1, -1], [0, 1, 0]),
    ([-1, -1, 1], [0, -1, 0]),
    ([-1, -1, -1], [0, -1, 0]),
    ([1, -1, -1], [0, -1, 0]),
    ([1, -1, 1], [0, -1, 0]),
    ([-1, -1, 1], [0, 0, 1]),
    ([1, -1, 1], [0, 0, 1]),
    ([1, 1, 1], [0, 0, 1]),
    ([-1, 1, 1], [0, 0, 1]),
    ([1, -1, -1], [0, 0, -1]),
    ([-1, -1, -1], [0, 0, -1]),
    ([-1, 1, -1], [0, 0, -1]),
    ([1, 1, -1], [0, 0, -1]),
];

/// Two triangles for each face.
pub const CUBE_INDICES: [u16; 36] = [
    0, 1, 2, 0, 2, 3,
    4, 5, 6, 4, 6, 7,
    8, 9, 10, 8, 10, 11,
    12, 13, 14, 12, 14, 15,
    16, 17, 18, 16, 18, 19,
    20, 21, 22, 20, 22, 23,
];

/// The triangles of the cube refer to its corners, and each lies in one face.
pub proof fn law_cube_triangles_are_faces(k: int)
    requires
        0 <= k < CUBE_INDICES@.len(),
    ensures
        CUBE_INDICES@[k] < CUBE_VERTICES@.len(),
        CUBE_INDICES@[k] / 4 == k / 6,
{
}

/// Every corner of the cube lies in the face that it belongs to: along the
/// direction of the face it is as far out as the face is.
pub proof fn law_cube_corners_lie_in_their_face(k: int, axis: int)
    requires
        0 <= k < CUBE_VERTICES@.len(),
        0 <= axis < 3,
        CUBE_VERTICES@[k].1@[axis] != 0,
    ensures
        CUBE_VERTICES@[k].0@[axis] == CUBE_VERTICES@[k].1@[axis],
{
}

/// Rings and sectors of the spheres.
pub const SPHERE_STACKS: u32 = 8;

pub const SPHERE_SECTORS: u32 = 12;

/// Number of vertices of a sphere of `stacks` rings of quads with `sectors`
/// quads each.
pub open spec fn sphere_vertex_count(stacks: int, sectors: int) -> int {
    (stacks + 1) * (sectors + 1)
}

/// The two triangles of a quad between the vertices `a` and `a + 1` of one ring
/// and `b` and `b + 1` of the next.
pub open spec fn quad_indices(a: int, b: int) -> Seq<u16> {
    seq![a as u16, b as u16, (a + 1) as u16, (a + 1) as u16, b as u16, (b + 1) as u16]
}

/// The triangles of the first `count` quads of a ring.
pub open spec fn ring_indices(ring: int, sectors: int, count: int) -> Seq<u16>
    decreases count,
{
    if count <= 0 {
        Seq::empty()
    } else {
        ring_indices(ring, sectors, count - 1) + quad_indices(
            ring * (sectors + 1) + count - 1,
            (ring + 1) * (sectors + 1) + count - 1,
        )
    }
}

/// The triangles of the first `stacks` rings of a sphere.
pub open spec fn sphere_triangles(stacks: int, sectors: int) -> Seq<u16>
    decreases stacks,
{
    if stacks <= 0 {
        Seq::empty()
    } else {
        sphere_triangles(stacks - 1, sectors) + ring_indices(stacks - 1, sectors, sectors)
    }
}

/// The triangles of a sphere. Its vertices are numbered ring by ring, with the
/// first of each ring repeated at its end.
pub fn sphere_indices(stacks: u32, sectors: u32) -> (indices: Vec<u16>)
    requires
        sphere_vertex_count(stacks as int, sectors as int) <= 0x1_0000,
    ensures
        indices@ == sphere_triangles(stacks as int, sectors as int),
{
    let mut indices: Vec<u16> = Vec::new();
    let mut i: u32 = 0;
    while i < stacks
        invariant
            i <= stacks,
            sphere_vertex_count(stacks as int, sectors as int) <= 0x1_0000,
            indices@ == sphere_triangles(i as int, sectors as int),
        decreases stacks - i,
    {
        proof {
            lemma_rings_fit(stacks as int, sectors as int, i as int);
        }
        let first: u32 = i * (sectors + 1);
        let ghost above = indices@;
        let mut j: u32 = 0;
        while j < sectors
            invariant
                j <= sectors,
                i < stacks,
                first == i * (sectors + 1),
                first + 2 * (sectors + 1) <= 0x1_0000,
                (i + 1) * (sectors + 1) == first + sectors + 1,
                indices@ == above + ring_indices(i as int, sectors as int, j as int),
            decreases sectors - j,
        {
            let a: u32 = first + j;
            let b: u32 = a + sectors + 1;
            let ghost before = indices@;
            indices.push(a as u16);
            indices.push(b as u16);
            indices.push((a + 1) as u16);
            indices.push((a + 1) as u16);
            indices.push(b as u16);
            indices.push((b + 1) as u16);
            assert(indices@ == before + quad_indices(a as int, b as int));
            j = j + 1;
        }
        i = i + 1;
    }
    indices
}

proof fn lemma_rings_fit(stacks: int, sectors: int, ring: int)
    requires
        0 <= ring < stacks,
        0 <= sectors,
    ensures
        0 <= ring * (sectors + 1),
        ring * (sectors + 1) + 2 * (sectors + 1) <= sphere_vertex_count(stacks, sectors),
        (ring + 1) * (sectors + 1) == ring * (sectors + 1) + sectors + 1,
{
    assert(0 <= ring * (sectors + 1)) by (nonlinear_arith)
        requires
            0 <= ring,
            0 <= sectors,
    ;
    assert(ring * (sectors + 1) + 2 * (sectors + 1) <= (stacks + 1) * (sectors + 1))
        by (nonlinear_arith)
        requires
            ring + 2 <= stacks + 1,
            0 <= sectors,
    ;
    assert((ring + 1) * (sectors + 1) == ring * (sectors + 1) + sectors + 1) by (nonlinear_arith);
}

proof fn lemma_ring_in_bounds(stacks: int, sectors: int, ring: int, count: int, k: int)
    requires
        0 <= ring < stacks,
        0 <= count <= sectors,
        sphere_vertex_count(stacks, sectors) <= 0x1_0000,
        0 <= k < ring_indices(ring, sectors, count).len(),
    ensures
        ring_indices(ring, sectors, count)[k] < sphere_vertex_count(stacks, sectors),
    decreases count,
{
    lemma_rings_fit(stacks, sectors, ring);
    if k < ring_indices(ring, sectors, count - 1).len() {
        lemma_ring_in_bounds(stacks, sectors, ring, count - 1, k);
    }
}

proof fn lemma_ring_length(ring: int, sectors: int, count: int)
    requires
        0 <= count,
    ensures
        ring_indices(ring, sectors, count).len() == 6 * count,
    decreases count,
{
    if count > 0 {
        lemma_ring_length(ring, sectors, count - 1);
    }
}

/// A sphere has two triangles for each quad of each ring.
pub proof fn law_sphere_triangle_count(stacks: int, sectors: int)
    requires
        0 <= stacks,
        0 <= sectors,
    ensures
        sphere_triangles(stacks, sectors).len() == 6 * (stacks * sectors),
    decreases stacks,
{
    if stacks > 0 {
        law_sphere_triangle_count(stacks - 1, sectors);
        lemma_ring_length(stacks - 1, sectors, sectors);
        assert(6 * ((stacks - 1) * sectors) + 6 * sectors == 6 * (stacks * sectors))
            by (nonlinear_arith);
    } else {
        assert(stacks * sectors == 0) by (nonlinear_arith)
            requires
                stacks == 0,
        ;
    }
}

/// The triangles of the first rings of a sphere refer to vertices that the
/// sphere has.
pub proof fn law_sphere_triangles_stay_in_bounds(stacks: int, sectors: int, rings: int, k: int)
    requires
        0 <= rings <= stacks,
        0 <= sectors,
        sphere_vertex_count(stacks, sectors) <= 0x1_0000,
        0 <= k < sphere_triangles(rings, sectors).len(),
    ensures
        sphere_triangles(rings, sectors)[k] < sphere_vertex_count(stacks, sectors),
    decreases rings,
{
    let above = sphere_triangles(rings - 1, sectors);
    if k < above.len() {
        law_sphere_triangles_stay_in_bounds(stacks, sectors, rings - 1, k);
    } else {
        lemma_ring_in_bounds(stacks, sectors, rings - 1, sectors, k - above.len());
    }
}

} // verus!
