use arkanoid::assets::{Atlas, SpriteId, TextureSource};

#[test]
fn load_produces_a_correctly_sized_atlas_for_every_source() {
    for source in [
        TextureSource::Procedural,
        TextureSource::Pack("/nonexistent/pack".to_string()),
    ] {
        let atlas = source.load();
        assert_eq!(
            atlas.pixels.len(),
            (atlas.width * atlas.height * 4) as usize
        );
        assert!(atlas.width > 0 && atlas.height > 0);
    }
}

#[test]
fn assets_every_sprite_id_has_a_distinct_in_bounds_cell() {
    let atlas = TextureSource::Procedural.load();
    let mut seen = Vec::new();
    for id in SpriteId::ALL {
        let (x, y, w, h) = Atlas::cell_rect(id);
        assert!(x + w <= atlas.width && y + h <= atlas.height);
        assert!(!seen.contains(&(x, y)), "duplicate cell origin for {id:?}");
        seen.push((x, y));

        let uv = atlas.uv_rect(id);
        let u0 = uv.u0 as f32 / uv.width as f32;
        let v0 = uv.v0 as f32 / uv.height as f32;
        let u1 = uv.u1 as f32 / uv.width as f32;
        let v1 = uv.v1 as f32 / uv.height as f32;
        assert!((0.0..=1.0).contains(&u0) && (0.0..=1.0).contains(&v0));
        assert!((0.0..=1.0).contains(&u1) && (0.0..=1.0).contains(&v1));
    }
}

#[test]
fn default_texture_source_is_procedural() {
    assert_eq!(TextureSource::default(), TextureSource::Procedural);
}

#[test]
fn a_pack_is_taken_from_its_directory() {
    assert_eq!(
        TextureSource::from_pack(Some("pack".to_string())),
        TextureSource::Pack("pack".to_string())
    );
    assert_eq!(TextureSource::from_pack(None), TextureSource::Procedural);
}

#[test]
fn a_pack_that_cannot_be_read_is_warned_about() {
    assert_eq!(
        TextureSource::Pack("/nonexistent/pack".to_string()).warning(),
        Some("/nonexistent/pack: cannot read texture pack -> procedural textures".to_string())
    );
    assert_eq!(TextureSource::Procedural.warning(), None);
}

#[test]
fn cells_are_packed_three_in_a_row() {
    assert_eq!(Atlas::cell_rect(SpriteId::Paddle), (0, 0, 64, 64));
    assert_eq!(Atlas::cell_rect(SpriteId::Ball), (64, 0, 64, 64));
    assert_eq!(Atlas::cell_rect(SpriteId::BrickNormal), (128, 0, 64, 64));
    assert_eq!(Atlas::cell_rect(SpriteId::BrickArmoredIntact), (0, 64, 64, 64));
    assert_eq!(Atlas::cell_rect(SpriteId::BrickArmoredHit), (64, 64, 64, 64));
    assert_eq!(Atlas::cell_rect(SpriteId::BrickIndestructible), (128, 64, 64, 64));
}

#[test]
fn texture_coordinates_count_in_the_size_of_the_atlas() {
    let mut atlas = TextureSource::Procedural.load();
    atlas.width = 256;
    atlas.height = 512;
    let uv = atlas.uv_rect(SpriteId::BrickArmoredHit);
    assert_eq!((uv.u0, uv.v0, uv.u1, uv.v1), (64, 64, 128, 128));
    assert_eq!((uv.width, uv.height), (256, 512));
}

#[test]
fn every_cell_has_its_own_color() {
    let atlas = TextureSource::Procedural.load();
    assert_eq!((atlas.width, atlas.height), (192, 128));
    let pixel = |x: usize, y: usize| {
        let at = (y * 192 + x) * 4;
        [
            atlas.pixels[at],
            atlas.pixels[at + 1],
            atlas.pixels[at + 2],
            atlas.pixels[at + 3],
        ]
    };
    let expected = [
        [204, 217, 242, 255],
        [255, 199, 51, 255],
        [217, 64, 64, 255],
        [77, 115, 173, 255],
        [230, 153, 38, 255],
        [64, 64, 71, 255],
    ];
    for y in 0..128 {
        for x in 0..192 {
            assert_eq!(pixel(x, y), expected[y / 64 * 3 + x / 64]);
        }
    }
}

#[test]
fn a_sprite_fills_its_cell_and_nothing_else() {
    let mut atlas = TextureSource::Procedural.load();
    let before = atlas.pixels.clone();
    let sprite: Vec<u8> = (0..64 * 64 * 4).map(|k| (k % 251) as u8).collect();
    atlas.set_sprite(SpriteId::BrickArmoredHit, &sprite);
    for y in 0..128 {
        for x in 0..192 {
            for channel in 0..4 {
                let at = (y * 192 + x) * 4 + channel;
                let expected = if (64..128).contains(&x) && y >= 64 {
                    sprite[((y - 64) * 64 + x - 64) * 4 + channel]
                } else {
                    before[at]
                };
                assert_eq!(atlas.pixels[at], expected);
            }
        }
    }
}
