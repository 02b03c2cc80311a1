use arkanoid::events::PowerUpKind;
use arkanoid::game::{Ball, Brick, Game, Paddle, PowerUp};
use arkanoid::levels::BrickKind;
use arkanoid::render::{powerup_color, RenderState};
use arkanoid::render3d::atlas::{beveled_brick_panel, hash_u32, Atlas, SpriteId};
use arkanoid::render3d::{
    brick_color, frame_scene, sphere_indices, Base, CUBE_INDICES, CUBE_VERTICES,
    MAX_CUBE_INSTANCES, MAX_SPHERE_INSTANCES, PADDLE_THICKNESS, SPHERE_SECTORS, SPHERE_STACKS,
    WALL_COLOR,
};

#[test]
fn procedural_atlas_has_a_correctly_sized_pixel_buffer() {
    let atlas = Atlas::procedural_placeholder();
    assert_eq!(
        atlas.pixels.len(),
        (atlas.width * atlas.height * 4) as usize
    );
    assert!(atlas.width > 0 && atlas.height > 0);
}

#[test]
fn atlas_every_sprite_id_has_a_distinct_in_bounds_cell() {
    let atlas = Atlas::procedural_placeholder();
    let mut seen = Vec::new();
    for id in SpriteId::ALL {
        let (x, y, w, h) = Atlas::cell_rect(id);
        assert!(x + w <= atlas.width && y + h <= atlas.height);
        assert!(!seen.contains(&(x, y)), "duplicate cell origin for {id:?}");
        seen.push((x, y));

        let uv = atlas.uv_rect(id);
        let u0 = uv.u0 as f32 / uv.width as f32;
        let v0 = uv.v0 as f32 / uv.height as f32;
        let u1 = uv.u1 as f32 / uv.width as f32;
        let v1 = uv.v1 as f32 / uv.height as f32;
        assert!((0.0..=1.0).contains(&u0) && (0.0..=1.0).contains(&v0));
        assert!((0.0..=1.0).contains(&u1) && (0.0..=1.0).contains(&v1));
    }
}

#[test]
fn procedural_atlas_is_byte_identical_across_generations() {
    let a = Atlas::procedural_placeholder();
    let b = Atlas::procedural_placeholder();
    assert_eq!(a.width, b.width);
    assert_eq!(a.height, b.height);
    assert_eq!(a.pixels, b.pixels);
}

#[test]
fn brick_sprite_has_a_directional_bevel() {
    let atlas = Atlas::procedural_placeholder();
    let (cx, cy, w, h) = Atlas::cell_rect(SpriteId::BrickNormal);
    let pixel = |x: u32, y: u32| -> u32 {
        let idx = (((cy + y) * atlas.width + (cx + x)) * 4) as usize;
        atlas.pixels[idx..idx + 3].iter().map(|&c| c as u32).sum()
    };
    let top_left = pixel(0, 0);
    let bottom_right = pixel(w - 1, h - 1);
    assert!(
        top_left > bottom_right,
        "expected a brighter top-left highlight than bottom-right shadow, got {top_left} vs {bottom_right}"
    );
}

/// The recipe of the panels in floating point.
fn panel_in_floats(base: [f32; 3], cell_x: u32, cell_y: u32, x: u32, y: u32) -> [u8; 3] {
    let v = y as f32 / 63.0;
    let gloss = 1.0 + 0.22 * (0.5 - v);
    let hash = hash_u32(cell_x + x, cell_y + y);
    let noise = ((hash as f32 / u32::MAX as f32) * 2.0 - 1.0) * 0.05;
    base.map(|channel| {
        let mut color = (channel * (gloss + noise)).clamp(0.0, 1.0);
        if x < 5 || y < 5 {
            color = (color + (1.0 - color) * 0.35).clamp(0.0, 1.0);
        } else if x >= 59 || y >= 59 {
            color = (color * (1.0 - 0.35)).clamp(0.0, 1.0);
        }
        (color * 255.0).round() as u8
    })
}

#[test]
fn the_exact_recipe_gives_the_bytes_of_the_one_in_floats() {
    let atlas = Atlas::procedural_placeholder();
    let palette = [
        (SpriteId::BrickNormal, [0.85, 0.25, 0.25]),
        (SpriteId::BrickArmoredIntact, [0.30, 0.45, 0.68]),
        (SpriteId::BrickArmoredHit, [0.90, 0.60, 0.15]),
        (SpriteId::BrickIndestructible, [0.25, 0.25, 0.28]),
    ];
    for (id, base) in palette {
        let (left, top, w, h) = Atlas::cell_rect(id);
        for y in 0..h {
            for x in 0..w {
                let at = (((top + y) * atlas.width + left + x) * 4) as usize;
                assert_eq!(
                    atlas.pixels[at..at + 3],
                    panel_in_floats(base, left, top, x, y)
                );
                assert_eq!(atlas.pixels[at + 3], 255);
            }
        }
    }
}

#[test]
fn a_panel_can_have_any_color() {
    let id = SpriteId::BrickArmoredHit;
    let (left, top, w, h) = Atlas::cell_rect(id);
    let rgba = beveled_brick_panel(id, [10, 50, 80]);
    assert_eq!(rgba.len(), (w * h * 4) as usize);
    for y in 0..h {
        for x in 0..w {
            let at = ((y * w + x) * 4) as usize;
            let floats = panel_in_floats([0.10, 0.50, 0.80], left, top, x, y);
            for channel in 0..3 {
                assert!(rgba[at + channel].abs_diff(floats[channel]) <= 1);
            }
            assert_eq!(rgba[at + 3], 255);
        }
    }
    let white = beveled_brick_panel(id, [100, 100, 100]);
    assert_eq!(white[..4], [255, 255, 255, 255]);
    let black = beveled_brick_panel(id, [0, 0, 0]);
    assert_eq!(black[..4], [89, 89, 89, 255], "the bevel lightens black");
    let middle = (32 * 64 + 32) * 4;
    assert_eq!(black[middle..middle + 4], [0, 0, 0, 255]);
}

#[test]
fn the_place_hash_has_known_values() {
    assert_eq!(hash_u32(0, 0), 2762682090);
    assert_eq!(hash_u32(1, 0), 0);
    assert_eq!(hash_u32(0, 1), 900866584);
    assert_eq!(hash_u32(127, 127), 3673497554);
}

#[test]
fn a_sprite_can_be_replaced() {
    let mut atlas = Atlas::procedural_placeholder();
    let before = atlas.pixels.clone();
    atlas.set_sprite(SpriteId::BrickArmoredHit, &vec![7u8; 64 * 64 * 4]);
    for (k, &byte) in atlas.pixels.iter().enumerate() {
        let (x, y) = (k / 4 % 128, k / 4 / 128);
        if x < 64 && y >= 64 {
            assert_eq!(byte, 7);
        } else {
            assert_eq!(byte, before[k]);
        }
    }
}

fn brick_of(kind: BrickKind, hits_remaining: u8) -> Brick {
    Brick {
        x: 0,
        y: 0,
        width: 52,
        height: 22,
        kind,
        hits_remaining,
        score: 10,
    }
}

#[test]
fn each_brick_kind_gets_its_own_distinct_color() {
    let normal = brick_color(&brick_of(BrickKind::Normal, 1));
    let armored = brick_color(&brick_of(BrickKind::Armored, 2));
    let indestructible = brick_color(&brick_of(BrickKind::Indestructible, 0));
    assert_ne!(normal, armored);
    assert_ne!(normal, indestructible);
    assert_ne!(armored, indestructible);
}

#[test]
fn an_armored_brick_changes_its_color_with_its_first_hit() {
    assert_eq!(brick_color(&brick_of(BrickKind::Armored, 2)), [30, 45, 68, 100]);
    assert_eq!(brick_color(&brick_of(BrickKind::Armored, 1)), [90, 60, 15, 100]);
}

#[test]
fn mod_each_powerup_kind_gets_its_own_distinct_color() {
    let widen = powerup_color(PowerUpKind::Widen);
    let slow = powerup_color(PowerUpKind::Slow);
    let multiball = powerup_color(PowerUpKind::Multiball);
    assert_ne!(widen, slow);
    assert_ne!(widen, multiball);
    assert_ne!(slow, multiball);
}

#[test]
fn sphere_mesh_indices_stay_in_bounds_of_its_own_vertex_buffer() {
    let vertices = (SPHERE_STACKS + 1) * (SPHERE_SECTORS + 1);
    let indices = sphere_indices(SPHERE_STACKS, SPHERE_SECTORS);
    assert!(!indices.is_empty());
    for &i in &indices {
        assert!(
            (i as u32) < vertices,
            "index {i} out of bounds for {vertices} vertices"
        );
    }
}

#[test]
fn a_sphere_has_two_triangles_per_quad() {
    assert_eq!(sphere_indices(8, 12).len(), 8 * 12 * 6);
    assert_eq!(
        sphere_indices(2, 1),
        vec![0, 2, 1, 1, 2, 3, 2, 4, 3, 3, 4, 5]
    );
    assert!(sphere_indices(0, 5).is_empty());
}

#[test]
fn cube_indices_stay_in_bounds_of_the_cube_vertex_buffer() {
    for &i in &CUBE_INDICES {
        assert!((i as usize) < CUBE_VERTICES.len());
    }
}

#[test]
fn every_triangle_of_the_cube_lies_in_one_face() {
    for triangle in CUBE_INDICES.chunks(3) {
        let normals: Vec<[i8; 3]> = triangle
            .iter()
            .map(|&i| CUBE_VERTICES[i as usize].1)
            .collect();
        assert_eq!(normals[0], normals[1]);
        assert_eq!(normals[0], normals[2]);
        for &i in triangle {
            let (position, normal) = CUBE_VERTICES[i as usize];
            let out: i8 = (0..3).map(|axis| position[axis] * normal[axis]).sum();
            assert_eq!(out, 1);
        }
    }
}

fn flying_ball(x: f32) -> Ball<f32> {
    Ball {
        x,
        y: 100.0,
        vx: 0.0,
        vy: 0.0,
        radius: 6.0,
        attached: false,
    }
}

#[test]
fn a_scene_holds_everything_in_order_and_is_capped() {
    let mut game: Game<f32> = Game::new(|n| n as f32);
    game.bricks = (0..200).map(|_| brick_of(BrickKind::Normal, 1)).collect();
    game.extra_balls = (0..20).map(|i| flying_ball(i as f32)).collect();
    game.powerups = (0..20)
        .map(|i| PowerUp {
            x: i as f32,
            y: 0.0,
            kind: PowerUpKind::Slow,
        })
        .collect();
    let drawn = RenderState {
        paddle: Paddle {
            x: 1.0,
            y: 2.0,
            width: 3.0,
            height: 4.0,
        },
        ball: flying_ball(77.0),
    };

    let scene = frame_scene(&game, &drawn);

    assert_eq!(scene.slabs.len(), MAX_CUBE_INSTANCES);
    assert_eq!(scene.balls.len(), MAX_SPHERE_INSTANCES);
    assert_eq!(scene.slabs[0].base, Base::Paddle(drawn.paddle));
    assert_eq!(scene.slabs[0].thickness, PADDLE_THICKNESS);
    assert_eq!(scene.slabs[1].base, Base::Brick(game.bricks[0]));
    assert_eq!(scene.slabs[1].thickness, 22);
    assert_eq!(scene.slabs[113].base, Base::Capsule(game.powerups[0]));
    assert_eq!(scene.slabs[113].thickness, 18);
    assert_eq!(scene.slabs[113].color, [35, 55, 95, 100]);
    assert_eq!(scene.balls[0], drawn.ball);
    assert_eq!(scene.balls[1], game.extra_balls[0]);
    assert_eq!(scene.balls[16], game.extra_balls[15]);
    assert_eq!(scene.ball_color, [100, 78, 20, 100]);
}

#[test]
fn the_walls_stand_just_outside_of_the_playfield() {
    let game: Game<f32> = Game::new(|n| n as f32);
    let scene = frame_scene(&game, &RenderState::from(&game));
    let walls = &scene.slabs[scene.slabs.len() - 3..];
    let bases: Vec<Base<f32>> = walls.iter().map(|wall| wall.base).collect();
    assert_eq!(
        bases,
        vec![
            Base::Wall {
                x: -10,
                y: 300,
                width: 20,
                height: 600
            },
            Base::Wall {
                x: 810,
                y: 300,
                width: 20,
                height: 600
            },
            Base::Wall {
                x: 400,
                y: -10,
                width: 800,
                height: 20
            },
        ]
    );
    for wall in walls {
        assert_eq!(wall.thickness, 46);
        assert_eq!(wall.color, WALL_COLOR);
    }
}
