//! What the brick faces of the view in depth look like, pixel by pixel.

use vstd::prelude::*;

use crate::render3d::atlas;
use crate::render3d::atlas::{Atlas, SpriteId, Zone, BRICK_PALETTE, FULL, UNIT};
use crate::sheet;

verus! {

/// The faces are packed two in a row, in the order of the list of all faces.
pub proof fn law_faces_are_packed_in_order(k: int)
    requires
        0 <= k < 4,
    ensures
        atlas::sprite_origin(SpriteId::ALL@[k]).0 == 64 * (k % 2),
        atlas::sprite_origin(SpriteId::ALL@[k]).1 == 64 * (k / 2),
        SpriteId::ALL@.len() == 4,
        SpriteId::ALL@[0] == SpriteId::BrickNormal,
        SpriteId::ALL@[1] == SpriteId::BrickArmoredIntact,
        SpriteId::ALL@[2] == SpriteId::BrickArmoredHit,
        SpriteId::ALL@[3] == SpriteId::BrickIndestructible,
{
}

/// The cell of a face holds its panel: each pixel is the one of a panel in the
/// color of that face.
pub proof fn law_cells_hold_the_panel_of_their_face(
    picture: Atlas,
    id: SpriteId,
    x: int,
    y: int,
    channel: int,
)
    requires
        atlas::is_beveled(picture),
        0 <= x < 64,
        0 <= y < 64,
        0 <= channel < 3,
    ensures
        ({
            let (left, top) = atlas::sprite_origin(id);
            let at = ((top + y) * 128 + (left + x)) * 4;
            let color = match id {
                SpriteId::BrickNormal => (85int, 25int, 25int),
                SpriteId::BrickArmoredIntact => (30int, 45int, 68int),
                SpriteId::BrickArmoredHit => (90int, 60int, 15int),
                SpriteId::BrickIndestructible => (25int, 25int, 28int),
            };
            let percent = if channel == 0 {
                color.0
            } else if channel == 1 {
                color.1
            } else {
                color.2
            };
            let hash = atlas::place_hash((left + x) as u32, (top + y) as u32) as int;
            &&& picture.width == 128 && picture.height == 128
            &&& picture.pixels@.len() == 4 * picture.width * picture.height
            &&& picture.pixels@[at + 3] == 255
            &&& picture.pixels@[at + channel] == atlas::nearest_byte(atlas::panel_channel(percent, x, y, hash))
        }),
{
    let (left, top) = atlas::sprite_origin(id);
    let px = left + x;
    let py = top + y;
    let number = atlas::sprite_number(id);
    assert(atlas::sheet_number(px, py) == number);
    assert(px % 64 == x && py % 64 == y);
    assert(sheet::byte_at(picture.pixels@, 128, px, py, channel) == atlas::panel_byte(
        number,
        atlas::face_color(number),
        x,
        y,
        channel,
    ));
    assert(sheet::byte_at(picture.pixels@, 128, px, py, 3) == 255);
    assert(BRICK_PALETTE@[0].1@ =~= seq![85u64, 25u64, 25u64]);
    assert(BRICK_PALETTE@[1].1@ =~= seq![30u64, 45u64, 68u64]);
    assert(BRICK_PALETTE@[2].1@ =~= seq![90u64, 60u64, 15u64]);
    assert(BRICK_PALETTE@[3].1@ =~= seq![25u64, 25u64, 28u64]);
}

/// Each byte of a panel is told from its own channel of the color and from the
/// place of the pixel in the atlas, and the opacity is full.
pub proof fn law_panels_are_told_from_their_color(
    rgba: Seq<u8>,
    id: SpriteId,
    base: Seq<u64>,
    x: int,
    y: int,
    channel: int,
)
    requires
        atlas::is_panel(rgba, atlas::sprite_number(id), base),
        0 <= x < 64,
        0 <= y < 64,
        0 <= channel < 3,
    ensures
        ({
            let (left, top) = atlas::sprite_origin(id);
            let at = (y * 64 + x) * 4;
            let hash = atlas::place_hash((left + x) as u32, (top + y) as u32) as int;
            &&& rgba.len() == 64 * 64 * 4
            &&& rgba[at + 3] == 255
            &&& rgba[at + channel] == atlas::nearest_byte(
                atlas::panel_channel(base[channel] as int, x, y, hash),
            )
        }),
{
    assert(sheet::byte_at(rgba, 64, x, y, channel) == atlas::panel_byte(
        atlas::sprite_number(id),
        base,
        x,
        y,
        channel,
    ));
    assert(sheet::byte_at(rgba, 64, x, y, 3) == 255);
}

/// The five pixels at the top and the left of a panel are lit, those at the
/// bottom and the right are in the shade unless they are lit, and the inside is
/// neither.
pub proof fn law_bevels_are_five_pixels_wide(x: int, y: int)
    requires
        0 <= x < 64,
        0 <= y < 64,
    ensures
        atlas::zone_at(x, y) == Zone::Highlight <==> x <= 4 || y <= 4,
        atlas::zone_at(x, y) == Zone::Interior <==> 5 <= x <= 58 && 5 <= y <= 58,
        atlas::zone_at(x, y) == atlas::zone_at(y, x),
{
}

/// The lit bevel takes 35 percent off what a channel lacks, the shaded one 35
/// percent off the channel, and the inside is as bright as its place makes it.
pub proof fn law_bevels_shade_by_35_percent(percent: int, x: int, y: int, hash: int)
    requires
        0 <= percent <= 100,
        0 <= atlas::brightness(y, hash) <= 2 * UNIT,
    ensures
        ({
            let plain = atlas::scaled(percent, atlas::brightness(y, hash));
            let channel = atlas::panel_channel(percent, x, y, hash);
            &&& atlas::zone_at(x, y) == Zone::Interior ==> channel == plain
            &&& atlas::zone_at(x, y) == Zone::Highlight ==> 100 * (FULL - channel) == 65 * (FULL - plain)
            &&& atlas::zone_at(x, y) == Zone::Shadow ==> 100 * channel == 65 * plain
        }),
{
    let factor = atlas::brightness(y, hash);
    let product = percent * factor;
    assert(percent * factor * 100 == product * 100) by (nonlinear_arith)
        requires
            product == percent * factor,
    ;
    assert(atlas::scaled(percent, factor) % 100 == 0);
}

/// A channel is its share of the color, made brighter or darker by its place and
/// never more than full. The share of a full color at a plain place is full.
pub proof fn law_channels_are_shares_of_the_color(percent: int, factor: int)
    ensures
        100 * (percent * factor) <= FULL ==> atlas::scaled(percent, factor) == 100 * (percent * factor),
        100 * (percent * factor) > FULL ==> atlas::scaled(percent, factor) == FULL,
        atlas::scaled(100, UNIT as int) == FULL,
{
    assert(percent * factor * 100 == 100 * (percent * factor)) by (nonlinear_arith);
}

/// A panel fades evenly from 111 percent at its top to 89 at its bottom, and the
/// grain adds up to five percent either way, in proportion to the hash.
pub proof fn law_panels_fade_downwards(y: int, hash: int, other: int)
    requires
        0 <= y < 64,
    ensures
        100 * atlas::brightness(0, 0x8000_0000) == 111 * UNIT,
        100 * atlas::brightness(63, 0x8000_0000) == 89 * UNIT,
        6300 * (atlas::brightness(0, hash) - atlas::brightness(y, hash)) == 22 * y * UNIT,
        atlas::brightness(y, other) - atlas::brightness(y, hash) == 630 * (other - hash),
        20 * (atlas::brightness(y, 0x1_0000_0000) - atlas::brightness(y, 0x8000_0000)) == UNIT,
{
}

/// A byte is the one nearest to its channel.
pub proof fn law_bytes_are_nearest_to_their_channel(channel: int)
    requires
        0 <= channel <= FULL,
    ensures
        0 <= atlas::nearest_byte(channel) <= 255,
        -(FULL as int) <= 2 * (atlas::nearest_byte(channel) * FULL - 255 * channel) <= FULL,
{
    let d = FULL as int * 2;
    let n = channel * 510 + FULL;
    let q = n / d;
    vstd::arithmetic::div_mod::lemma_fundamental_div_mod(n, d);
    vstd::arithmetic::div_mod::lemma_mod_bound(n, d);
    assert(d * q == 2 * (q * FULL)) by (nonlinear_arith)
        requires
            d == FULL as int * 2,
    ;
    assert(0 <= q <= 255) by (nonlinear_arith)
        requires
            d * q <= n < d * q + d,
            0 <= n < 256 * d,
            0 < d,
    ;
}

/// Lightening and darkening move a channel by so many percent of the way to full
/// and to nothing.
pub proof fn law_shades_move_by_percent(channel: int, percent: int)
    requires
        0 <= channel <= FULL,
        channel % 100 == 0,
        0 <= percent <= 100,
    ensures
        100 * (atlas::lightened(channel, percent) - channel) == percent * (FULL - channel),
        100 * (channel - atlas::darkened(channel, percent)) == percent * channel,
{
    let lack = (FULL - channel) / 100;
    let part = channel / 100;
    assert(FULL - channel == 100 * lack);
    assert(channel == 100 * part);
    assert(100 * (lack * percent) == percent * (100 * lack)) by (nonlinear_arith);
    assert(100 * (part * percent) == percent * (100 * part)) by (nonlinear_arith);
}

/// The hash of a place mixes both of its coordinates into one number, each
/// multiplied by a constant of its own, and folds and multiplies that twice.
pub proof fn law_hashes_mix_both_coordinates(x: u32, y: u32)
    ensures
        ({
            let mixed = 0x9E37_79B9_7F4A_7C15u64 ^ (x as u64).wrapping_mul(
                0x9E37_79B9_7F4A_7C15u64,
            ) ^ (y as u64).wrapping_mul(0xC2B2_AE3D_27D4_EB4Fu64);
            let once = (mixed ^ (mixed >> 33u64)).wrapping_mul(0xFF51_AFD7_ED55_8CCDu64);
            let twice = (once ^ (once >> 33u64)).wrapping_mul(0xC4CE_B9FE_1A85_EC53u64);
            atlas::place_hash(x, y) == (twice ^ (twice >> 33u64)) as u32
        }),
{
}

/// Folding the high bits into the low ones loses nothing: it can be undone, and
/// folding twice gives the number back.
pub proof fn law_folding_loses_nothing(first: u64, second: u64)
    ensures
        atlas::folded(atlas::folded(first)) == first,
        atlas::folded(first) == atlas::folded(second) ==> first == second,
{
    assert((first ^ (first >> 33)) ^ ((first ^ (first >> 33)) >> 33) == first) by (bit_vector);
    assert((second ^ (second >> 33)) ^ ((second ^ (second >> 33)) >> 33) == second)
        by (bit_vector);
}

} // verus!
