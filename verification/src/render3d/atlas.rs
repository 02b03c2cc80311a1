//! The brick faces of the view in depth: beveled panels with a gloss that fades
//! downwards and a faint grain.
//!
//! A channel of a color is a whole number of [`FULL`] parts, so that every
//! step of the recipe is exact. Each pixel follows from its place alone, and
//! the same picture comes out every time.

use vstd::prelude::*;

use crate::assets;
use crate::assets::UvRect;
use crate::sheet;
use crate::sheet::{copy_sprite, CELL_BYTES, CELL_SIZE};

verus! {

/// Sprites per row of the atlas.
pub const GRID_COLS: u32 = 2;

/// The face of a brick. An armored brick has one before its first hit and
/// another after it.
#[derive(Debug, Clone, Copy, PartialEq, Eq, Hash, Structural)]
pub enum SpriteId {
    BrickNormal,
    BrickArmoredIntact,
    BrickArmoredHit,
    BrickIndestructible,
}

/// Number of sprites.
pub const SPRITE_COUNT: usize = 4;

/// Position of a sprite in the atlas.
pub open spec fn sprite_number(id: SpriteId) -> int {
    match id {
        SpriteId::BrickNormal => 0,
        SpriteId::BrickArmoredIntact => 1,
        SpriteId::BrickArmoredHit => 2,
        SpriteId::BrickIndestructible => 3,
    }
}

impl SpriteId {
    /// All sprites, in the order in which they are packed.
    pub const ALL: [SpriteId; 4] = [
        SpriteId::BrickNormal,
        SpriteId::BrickArmoredIntact,
        SpriteId::BrickArmoredHit,
        SpriteId::BrickIndestructible,
    ];

    /// Position of this sprite in [`SpriteId::ALL`].
    fn position(self) -> (index: usize)
        ensures
            index == sprite_number(self),
            index < SPRITE_COUNT,
    {
        let all = SpriteId::ALL;
        let mut index: usize = 0;
        while index < SPRITE_COUNT - 1 && all[index] != self
            invariant
                index < SPRITE_COUNT,
                all == SpriteId::ALL,
                index <= sprite_number(self),
            decreases SPRITE_COUNT - index,
        {
            index = index + 1;
        }
        index
    }
}

/// An RGBA picture with a cell for each sprite.
#[derive(Debug, Clone)]
pub struct Atlas {
    pub width: u32,
    pub height: u32,
    /// Four bytes per pixel, row by row from the top.
    pub pixels: Vec<u8>,
}

/// The top-left pixel of a sprite's cell.
pub open spec fn sprite_origin(id: SpriteId) -> (int, int) {
    sheet::cell_origin(sprite_number(id), GRID_COLS as int)
}

/// The seed of the grain.
pub const NOISE_SEED: u64 = 0x9E37_79B9_7F4A_7C15;

/// One round of mixing: the high bits are folded into the low ones.
pub open spec fn folded(h: u64) -> u64 {
    h ^ (h >> 33)
}

/// A number that scatters over all 32 bits as the place varies.
pub open spec fn place_hash(x: u32, y: u32) -> u32 {
    let start = NOISE_SEED ^ (x as u64).wrapping_mul(0x9E37_79B9_7F4A_7C15) ^ (
    y as u64).wrapping_mul(0xC2B2_AE3D_27D4_EB4F);
    let once = folded(start).wrapping_mul(0xFF51_AFD7_ED55_8CCD);
    let twice = folded(once).wrapping_mul(0xC4CE_B9FE_1A85_EC53);
    folded(twice) as u32
}

/// Hashes a place.
pub fn hash_u32(x: u32, y: u32) -> (hash: u32)
    ensures
        hash == place_hash(x, y),
{
    let mut h: u64 = NOISE_SEED ^ (x as u64).wrapping_mul(0x9E37_79B9_7F4A_7C15) ^ (
    y as u64).wrapping_mul(0xC2B2_AE3D_27D4_EB4F);
    h = h ^ (h >> 33);
    h = h.wrapping_mul(0xFF51_AFD7_ED55_8CCD);
    h = h ^ (h >> 33);
    h = h.wrapping_mul(0xC4CE_B9FE_1A85_EC53);
    h = h ^ (h >> 33);
    #[verifier::truncate]
    (h as u32)
}

/// A brightness factor of one, in the parts that factors are counted in.
pub const UNIT: u64 = 27_058_293_964_800;

/// A full channel, in the parts that channels are counted in.
pub const FULL: u64 = 270_582_939_648_000_000;

/// The factor that row `y` of a panel and a hash give: one, with a gloss that
/// runs from 11 % more at the top to 11 % less at the bottom, and a grain of at
/// most 5 % either way.
pub open spec fn brightness(y: int, hash: int) -> int {
    UNIT + UNIT * 11 / 100 - UNIT * 22 * y / 6300 + (2 * hash - 0x1_0000_0000) * 315
}

/// A base channel in percent under a factor, cut off at full.
pub open spec fn scaled(percent: int, factor: int) -> int {
    if percent * factor * 100 > FULL {
        FULL as int
    } else {
        percent * factor * 100
    }
}

/// A channel with so many percent of what it lacks added.
pub open spec fn lightened(channel: int, percent: int) -> int {
    channel + (FULL - channel) / 100 * percent
}

/// A channel with so many percent of it taken off.
pub open spec fn darkened(channel: int, percent: int) -> int {
    channel - channel / 100 * percent
}

/// The byte nearest to a channel.
pub open spec fn nearest_byte(channel: int) -> int {
    (channel * 510 + FULL) / (FULL as int * 2)
}

/// Width of the bevel in pixels.
pub const BEVEL_WIDTH: u32 = 5;

/// How much the bevel lightens and darkens, in percent.
pub const BEVEL_HIGHLIGHT: u64 = 35;

pub const BEVEL_SHADOW: u64 = 35;

/// Part of a panel.
#[derive(Debug, Clone, Copy, PartialEq, Eq, Structural)]
pub enum Zone {
    /// The bevel at the top and the left.
    Highlight,
    /// The bevel at the bottom and the right.
    Shadow,
    Interior,
}

/// The part of a panel that a pixel lies in. Where the bevels meet the light
/// one wins.
pub open spec fn zone_at(x: int, y: int) -> Zone {
    if x < BEVEL_WIDTH || y < BEVEL_WIDTH {
        Zone::Highlight
    } else if x >= CELL_SIZE - BEVEL_WIDTH || y >= CELL_SIZE - BEVEL_WIDTH {
        Zone::Shadow
    } else {
        Zone::Interior
    }
}

/// Red, green and blue of each brick face in percent.
pub const BRICK_PALETTE: [(SpriteId, [u64; 3]); 4] = [
    (SpriteId::BrickNormal, [85, 25, 25]),
    (SpriteId::BrickArmoredIntact, [30, 45, 68]),
    (SpriteId::BrickArmoredHit, [90, 60, 15]),
    (SpriteId::BrickIndestructible, [25, 25, 28]),
];

/// A channel of a panel, before it is rounded.
pub open spec fn panel_channel(percent: int, x: int, y: int, hash: int) -> int {
    let plain = scaled(percent, brightness(y, hash));
    match zone_at(x, y) {
        Zone::Highlight => lightened(plain, BEVEL_HIGHLIGHT as int),
        Zone::Shadow => darkened(plain, BEVEL_SHADOW as int),
        Zone::Interior => plain,
    }
}

/// A byte of a panel of color `base` in cell `number`.
pub open spec fn panel_byte(number: int, base: Seq<u64>, x: int, y: int, channel: int) -> int {
    if channel == 3 {
        255
    } else {
        let (left, top) = sheet::cell_origin(number, GRID_COLS as int);
        nearest_byte(
            panel_channel(
                base[channel] as int,
                x,
                y,
                place_hash((left + x) as u32, (top + y) as u32) as int,
            ),
        )
    }
}

/// The color of the panel in cell `number`.
pub open spec fn face_color(number: int) -> Seq<u64> {
    BRICK_PALETTE@[number].1@
}

/// Whether some pixels are a panel of color `base` for cell `number`.
pub open spec fn is_panel(rgba: Seq<u8>, number: int, base: Seq<u64>) -> bool {
    &&& rgba.len() == CELL_BYTES
    &&& forall|x: int, y: int, channel: int|
        0 <= x < CELL_SIZE && 0 <= y < CELL_SIZE && 0 <= channel < 4 ==> #[trigger] sheet::byte_at(
            rgba,
            CELL_SIZE as int,
            x,
            y,
            channel,
        ) == panel_byte(number, base, x, y, channel)
}

/// The brightness of a pixel.
fn brightness_of(y: u32, hash: u32) -> (factor: u64)
    requires
        y < CELL_SIZE,
    ensures
        factor == brightness(y as int, hash as int),
        factor <= 2 * UNIT,
{
    let gloss: u64 = UNIT + UNIT * 11 / 100 - UNIT * 22 * y as u64 / 6300;
    gloss + hash as u64 * 630 - 0x1_0000_0000 * 315
}

/// Scales a base channel.
fn scale(percent: u64, factor: u64) -> (channel: u64)
    requires
        percent <= 100,
        factor <= 2 * UNIT,
    ensures
        channel == scaled(percent as int, factor as int),
        channel <= FULL,
{
    proof {
        assert(percent * factor * 100 <= 100 * (2 * UNIT) * 100) by (nonlinear_arith)
            requires
                percent <= 100,
                factor <= 2 * UNIT,
        ;
        assert(percent * factor <= percent * factor * 100) by (nonlinear_arith);
    }
    let channel: u64 = percent * factor * 100;
    if channel > FULL {
        FULL
    } else {
        channel
    }
}

/// Lightens a channel.
fn lighten(channel: u64, percent: u64) -> (lighter: u64)
    requires
        channel <= FULL,
        percent <= 100,
    ensures
        lighter == lightened(channel as int, percent as int),
        channel <= lighter <= FULL,
{
    let lack: u64 = (FULL - channel) / 100;
    proof {
        assert(lack * percent <= lack * 100) by (nonlinear_arith)
            requires
                percent <= 100,
        ;
    }
    channel + lack * percent
}

/// Darkens a channel.
fn darken(channel: u64, percent: u64) -> (darker: u64)
    requires
        channel <= FULL,
        percent <= 100,
    ensures
        darker == darkened(channel as int, percent as int),
        darker <= channel,
{
    let part: u64 = channel / 100;
    proof {
        assert(part * percent <= part * 100) by (nonlinear_arith)
            requires
                percent <= 100,
        ;
    }
    channel - part * percent
}

/// Rounds a channel to a byte.
fn to_byte(channel: u64) -> (byte: u8)
    requires
        channel <= FULL,
    ensures
        byte == nearest_byte(channel as int),
{
    ((channel as u128 * 510 + FULL as u128) / (FULL as u128 * 2)) as u8
}

/// The part of a panel that a pixel lies in.
fn zone_of(x: u32, y: u32) -> (zone: Zone)
    ensures
        zone == zone_at(x as int, y as int),
{
    if x < BEVEL_WIDTH || y < BEVEL_WIDTH {
        Zone::Highlight
    } else if x >= CELL_SIZE - BEVEL_WIDTH || y >= CELL_SIZE - BEVEL_WIDTH {
        Zone::Shadow
    } else {
        Zone::Interior
    }
}

/// One byte of a pixel.
fn shade(percent: u64, x: u32, y: u32, hash: u32) -> (byte: u8)
    requires
        percent <= 100,
        y < CELL_SIZE,
    ensures
        byte == nearest_byte(panel_channel(percent as int, x as int, y as int, hash as int)),
{
    let plain: u64 = scale(percent, brightness_of(y, hash));
    let channel: u64 = match zone_of(x, y) {
        Zone::Highlight => lighten(plain, BEVEL_HIGHLIGHT),
        Zone::Shadow => darken(plain, BEVEL_SHADOW),
        Zone::Interior => plain,
    };
    to_byte(channel)
}

/// Draws a panel of color `base`, in percent, with the grain of a sprite's cell.
pub fn beveled_brick_panel(id: SpriteId, base: [u64; 3]) -> (rgba: Vec<u8>)
    requires
        forall|channel: int| 0 <= channel < 3 ==> (#[trigger] base@[channel]) <= 100,
    ensures
        is_panel(rgba@, sprite_number(id), base@),
{
    let (left, top, _w, _h) = Atlas::cell_rect(id);
    let ghost number = sprite_number(id);
    let mut rgba: Vec<u8> = Vec::new();
    let mut y: u32 = 0;
    while y < CELL_SIZE
        invariant
            y <= CELL_SIZE,
            number == sprite_number(id),
            left == sprite_origin(id).0,
            top == sprite_origin(id).1,
            forall|c: int| 0 <= c < 3 ==> (#[trigger] base@[c]) <= 100,
            rgba@.len() == y * 256,
            forall|px: int, py: int, channel: int|
                0 <= px < CELL_SIZE && 0 <= py < y && 0 <= channel < 4 ==> #[trigger] sheet::byte_at(
                    rgba@,
                    64,
                    px,
                    py,
                    channel,
                ) == panel_byte(number, base@, px, py, channel),
        decreases CELL_SIZE - y,
    {
        let mut x: u32 = 0;
        while x < CELL_SIZE
            invariant
                x <= CELL_SIZE,
                y < CELL_SIZE,
                number == sprite_number(id),
                left == sprite_origin(id).0,
                top == sprite_origin(id).1,
                forall|c: int| 0 <= c < 3 ==> (#[trigger] base@[c]) <= 100,
                rgba@.len() == y * 256 + x * 4,
                forall|px: int, py: int, channel: int|
                    0 <= px < CELL_SIZE && 0 <= py <= y && (py < y || px < x) && 0 <= channel < 4
                        ==> #[trigger] sheet::byte_at(rgba@, 64, px, py, channel) == panel_byte(
                        number,
                        base@,
                        px,
                        py,
                        channel,
                    ),
            decreases CELL_SIZE - x,
        {
            let hash: u32 = hash_u32(left + x, top + y);
            let ghost before = rgba@;
            rgba.push(shade(base[0], x, y, hash));
            rgba.push(shade(base[1], x, y, hash));
            rgba.push(shade(base[2], x, y, hash));
            rgba.push(255);
            assert forall|px: int, py: int, channel: int|
                0 <= px < CELL_SIZE && 0 <= py <= y && (py < y || px < x + 1) && 0 <= channel
                    < 4 implies #[trigger] sheet::byte_at(rgba@, 64, px, py, channel)
                == panel_byte(number, base@, px, py, channel) by {
                if py < y || px < x {
                    assert(sheet::byte_at(before, 64, px, py, channel) == panel_byte(
                        number,
                        base@,
                        px,
                        py,
                        channel,
                    ));
                }
            }
            x = x + 1;
        }
        y = y + 1;
    }
    rgba
}

/// Whether an atlas holds the panels of all brick faces.
pub open spec fn is_beveled(atlas: Atlas) -> bool {
    &&& atlas.width == 128
    &&& atlas.height == 128
    &&& atlas.pixels@.len() == 128 * 128 * 4
    &&& forall|x: int, y: int, channel: int|
        0 <= x < 128 && 0 <= y < 128 && 0 <= channel < 4 ==> #[trigger] sheet::byte_at(
            atlas.pixels@,
            128,
            x,
            y,
            channel,
        ) == panel_byte(
            sheet_number(x, y),
            face_color(sheet_number(x, y)),
            x % CELL_SIZE as int,
            y % CELL_SIZE as int,
            channel,
        )
}

/// The number of the sprite whose cell a pixel lies in.
pub open spec fn sheet_number(x: int, y: int) -> int {
    y / CELL_SIZE as int * GRID_COLS + x / CELL_SIZE as int
}

impl Atlas {
    /// Size of an atlas with a cell for each sprite.
    fn grid_size() -> (size: (u32, u32))
        ensures
            size == (128u32, 128u32),
    {
        let rows: u32 = (SPRITE_COUNT as u32 + GRID_COLS - 1) / GRID_COLS;
        (GRID_COLS * CELL_SIZE, rows * CELL_SIZE)
    }

    /// The cell of a sprite in pixels: left, top, width and height.
    pub fn cell_rect(id: SpriteId) -> (rect: (u32, u32, u32, u32))
        ensures
            rect.0 == sprite_origin(id).0,
            rect.1 == sprite_origin(id).1,
            rect.2 == CELL_SIZE,
            rect.3 == CELL_SIZE,
    {
        let index: u32 = id.position() as u32;
        let col: u32 = index % GRID_COLS;
        let row: u32 = index / GRID_COLS;
        (col * CELL_SIZE, row * CELL_SIZE, CELL_SIZE, CELL_SIZE)
    }

    /// The cell of a sprite in texture coordinates of this atlas.
    pub fn uv_rect(&self, id: SpriteId) -> (uv: UvRect)
        ensures
            uv == assets::cell_in_texture(sprite_origin(id), self.width, self.height),
    {
        let (x, y, w, h) = Atlas::cell_rect(id);
        UvRect { u0: x, v0: y, u1: x + w, v1: y + h, width: self.width, height: self.height }
    }

    /// Copies the pixels of a sprite into its cell.
    pub fn set_sprite(&mut self, id: SpriteId, rgba: &[u8])
        requires
            rgba@.len() == CELL_BYTES,
            sheet::sprite_fits(
                old(self).pixels@,
                old(self).width as int,
                sprite_origin(id).0,
                sprite_origin(id).1,
            ),
        ensures
            final(self).width == old(self).width,
            final(self).height == old(self).height,
            final(self).pixels@ == sheet::with_sprite(
                old(self).pixels@,
                old(self).width as int,
                sprite_origin(id).0,
                sprite_origin(id).1,
                rgba@,
            ),
    {
        let (x, y, _w, _h) = Atlas::cell_rect(id);
        copy_sprite(&mut self.pixels, self.width, x, y, rgba);
    }

    /// The atlas of the brick faces.
    #[verifier::rlimit(60)]
    pub fn procedural_placeholder() -> (atlas: Atlas)
        ensures
            is_beveled(atlas),
    {
        let (width, height) = Atlas::grid_size();
        let mut atlas = Atlas { width, height, pixels: vec![0u8; 65536] };
        let palette = BRICK_PALETTE;
        let mut i: usize = 0;
        while i < SPRITE_COUNT
            invariant
                i <= SPRITE_COUNT,
                palette == BRICK_PALETTE,
                atlas.width == 128,
                atlas.height == 128,
                atlas.pixels@.len() == 128 * 128 * 4,
                forall|x: int, y: int, channel: int|
                    0 <= x < 128 && 0 <= y < 128 && 0 <= channel < 4 && sheet_number(x, y) < i
                        ==> #[trigger] sheet::byte_at(atlas.pixels@, 128, x, y, channel)
                        == panel_byte(
                        sheet_number(x, y),
                        face_color(sheet_number(x, y)),
                        x % CELL_SIZE as int,
                        y % CELL_SIZE as int,
                        channel,
                    ),
            decreases SPRITE_COUNT - i,
        {
            let (id, base) = palette[i];
            assert(sprite_number(id) == i);
            let rgba = beveled_brick_panel(id, base);
            let ghost before = atlas.pixels@;
            let ghost (left, top) = sprite_origin(id);
            assert((top + 63) * 512 <= 127 * 512);
            atlas.set_sprite(id, rgba.as_slice());
            proof {
                sheet::law_sprites_fill_their_cell(before, 128, left, top, rgba@, 0, 0, 0);
                assert forall|x: int, y: int, channel: int|
                    0 <= x < 128 && 0 <= y < 128 && 0 <= channel < 4 && sheet_number(x, y)
                        < i + 1 implies #[trigger] sheet::byte_at(
                    atlas.pixels@,
                    128,
                    x,
                    y,
                    channel,
                ) == panel_byte(
                    sheet_number(x, y),
                    face_color(sheet_number(x, y)),
                    x % CELL_SIZE as int,
                    y % CELL_SIZE as int,
                    channel,
                ) by {
                    sheet::law_sprites_fill_their_cell(
                        before,
                        128,
                        left,
                        top,
                        rgba@,
                        x,
                        y,
                        channel,
                    );
                    if sheet_number(x, y) == i {
                        assert(x - left == x % CELL_SIZE as int);
                        assert(y - top == y % CELL_SIZE as int);
                        assert(sheet::byte_at(rgba@, 64, x - left, y - top, channel)
                            == panel_byte(i as int, base@, x - left, y - top, channel));
                    } else {
                        assert(sheet::byte_at(before, 128, x, y, channel) == panel_byte(
                            sheet_number(x, y),
                            face_color(sheet_number(x, y)),
                            x % CELL_SIZE as int,
                            y % CELL_SIZE as int,
                            channel,
                        ));
                    }
                }
            }
            i = i + 1;
        }
        atlas
    }
}

/// Every sprite has its own cell, and the cell lies within the atlas.
pub proof fn law_sprites_have_distinct_cells(first: SpriteId, second: SpriteId)
    ensures
        sprite_origin(first) == sprite_origin(second) ==> first == second,
        0 <= sprite_origin(first).0,
        sprite_origin(first).0 + CELL_SIZE <= 128,
        0 <= sprite_origin(first).1,
        sprite_origin(first).1 + CELL_SIZE <= 128,
{
}

/// The list of all sprites holds each at its position.
pub proof fn law_all_sprites_are_listed(id: SpriteId)
    ensures
        0 <= sprite_number(id) < SpriteId::ALL@.len(),
        SpriteId::ALL@[sprite_number(id)] == id,
{
}

/// The same color is lighter on the lit bevel than inside and darker on the
/// shaded one.
pub proof fn law_bevel_is_directional(channel: int)
    requires
        0 <= channel <= FULL,
    ensures
        nearest_byte(darkened(channel, BEVEL_SHADOW as int)) <= nearest_byte(channel)
            <= nearest_byte(lightened(channel, BEVEL_HIGHLIGHT as int)),
{
}

} // verus!
