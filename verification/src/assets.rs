//! The sprites of the flat view and the atlas that they are packed into.
//!
//! A [`TextureSource`] says where pixels come from; whoever draws only ever
//! sees the [`Atlas`] that it loads.

use vstd::prelude::*;
use vstd::string::*;

use crate::sheet;
use crate::sheet::{copy_sprite, CELL_BYTES, CELL_SIZE};

verus! {

/// Where the pixels come from.
#[derive(Debug, Clone, PartialEq, Eq)]
pub enum TextureSource {
    /// Drawn by the program itself.
    Procedural,
    /// A directory of sprite images.
    Pack(String),
}

impl Default for TextureSource {
    fn default() -> (source: Self)
        ensures
            source == TextureSource::Procedural,
    {
        TextureSource::Procedural
    }
}

/// The source that an optional directory stands for.
pub open spec fn source_for(dir: Option<String>) -> TextureSource {
    match dir {
        Some(dir) => TextureSource::Pack(dir),
        None => TextureSource::Procedural,
    }
}

/// What to warn about when a source is loaded.
pub open spec fn warning_of(source: TextureSource) -> Option<Seq<char>> {
    match source {
        TextureSource::Procedural => None,
        TextureSource::Pack(dir) => Some(pack_warning(dir@)),
    }
}

impl TextureSource {
    /// The source for an optional directory of sprite images.
    pub fn from_pack(dir: Option<String>) -> (source: TextureSource)
        ensures
            source == source_for(dir),
    {
        match dir {
            Some(dir) => TextureSource::Pack(dir),
            None => TextureSource::default(),
        }
    }

    /// The atlas of this source. There is one for every source: no pack can be
    /// read, so that a pack is drawn with the procedural pixels too, and
    /// [`TextureSource::warning`] says so.
    pub fn load(&self) -> (atlas: Atlas)
        ensures
            is_placeholder(atlas),
    {
        match self {
            TextureSource::Procedural => Atlas::procedural_placeholder(),
            TextureSource::Pack(_) => Atlas::procedural_placeholder(),
        }
    }

    /// What to warn about when this source is loaded: a pack that is not what
    /// gets drawn. The procedural source never fails.
    pub fn warning(&self) -> (warning: Option<String>)
        ensures
            match warning {
                Some(text) => warning_of(*self) == Some(text@),
                None => warning_of(*self) is None,
            },
    {
        match self {
            TextureSource::Procedural => None,
            TextureSource::Pack(dir) => {
                let mut text: String = dir.as_str().to_owned();
                text.append(": cannot read texture pack -> procedural textures");
                Some(text)
            },
        }
    }
}

/// The warning about a pack in directory `dir`.
pub open spec fn pack_warning(dir: Seq<char>) -> Seq<char> {
    dir + ": cannot read texture pack -> procedural textures"@
}

/// Something that is drawn with a texture. An armored brick has one sprite
/// before its first hit and another after it.
#[derive(Debug, Clone, Copy, PartialEq, Eq, Hash, Structural)]
pub enum SpriteId {
    Paddle,
    Ball,
    BrickNormal,
    BrickArmoredIntact,
    BrickArmoredHit,
    BrickIndestructible,
}

/// Number of sprites.
pub const SPRITE_COUNT: usize = 6;

/// Position of a sprite in the atlas.
pub open spec fn sprite_number(id: SpriteId) -> int {
    match id {
        SpriteId::Paddle => 0,
        SpriteId::Ball => 1,
        SpriteId::BrickNormal => 2,
        SpriteId::BrickArmoredIntact => 3,
        SpriteId::BrickArmoredHit => 4,
        SpriteId::BrickIndestructible => 5,
    }
}

impl SpriteId {
    /// All sprites, in the order in which they are packed.
    pub const ALL: [SpriteId; 6] = [
        SpriteId::Paddle,
        SpriteId::Ball,
        SpriteId::BrickNormal,
        SpriteId::BrickArmoredIntact,
        SpriteId::BrickArmoredHit,
        SpriteId::BrickIndestructible,
    ];

    /// Position of this sprite in [`SpriteId::ALL`].
    fn position(self) -> (index: usize)
        ensures
            index == sprite_number(self),
            index < SPRITE_COUNT,
    {
        let all = SpriteId::ALL;
        let mut index: usize = 0;
        while index < SPRITE_COUNT - 1 && all[index] != self
            invariant
                index < SPRITE_COUNT,
                all == SpriteId::ALL,
                index <= sprite_number(self),
            decreases SPRITE_COUNT - index,
        {
            index = index + 1;
        }
        index
    }
}

/// Part of an atlas in texture coordinates, from the top-left corner to the
/// bottom-right one: `u0 / width`, `v0 / height` to `u1 / width`, `v1 / height`.
#[derive(Debug, Clone, Copy, PartialEq, Eq, Structural)]
pub struct UvRect {
    pub u0: u32,
    pub v0: u32,
    pub u1: u32,
    pub v1: u32,
    pub width: u32,
    pub height: u32,
}

/// Sprites per row of the atlas.
pub const GRID_COLS: u32 = 3;

/// An RGBA picture with a cell for each sprite.
#[derive(Debug, Clone)]
pub struct Atlas {
    pub width: u32,
    pub height: u32,
    /// Four bytes per pixel, row by row from the top.
    pub pixels: Vec<u8>,
}

/// The top-left pixel of a sprite's cell.
pub open spec fn sprite_origin(id: SpriteId) -> (int, int) {
    sheet::cell_origin(sprite_number(id), GRID_COLS as int)
}

/// The cell with this top-left pixel, in texture coordinates of a picture of
/// this size.
pub open spec fn cell_in_texture(origin: (int, int), width: u32, height: u32) -> UvRect {
    UvRect {
        u0: origin.0 as u32,
        v0: origin.1 as u32,
        u1: (origin.0 + CELL_SIZE) as u32,
        v1: (origin.1 + CELL_SIZE) as u32,
        width,
        height,
    }
}

/// One color for each sprite.
pub const PLACEHOLDER_COLORS: [(SpriteId, [u8; 4]); 6] = [
    (SpriteId::Paddle, [204, 217, 242, 255]),
    (SpriteId::Ball, [255, 199, 51, 255]),
    (SpriteId::BrickNormal, [217, 64, 64, 255]),
    (SpriteId::BrickArmoredIntact, [77, 115, 173, 255]),
    (SpriteId::BrickArmoredHit, [230, 153, 38, 255]),
    (SpriteId::BrickIndestructible, [64, 64, 71, 255]),
];

/// Whether an atlas is the one whose cells are filled with one color each.
pub open spec fn is_placeholder(atlas: Atlas) -> bool {
    &&& atlas.width == 192
    &&& atlas.height == 128
    &&& atlas.pixels@.len() == 192 * 128 * 4
    &&& forall|x: int, y: int, channel: int|
        0 <= x < 192 && 0 <= y < 128 && 0 <= channel < 4 ==> #[trigger] sheet::byte_at(
            atlas.pixels@,
            192,
            x,
            y,
            channel,
        ) == PLACEHOLDER_COLORS@[sheet_number(x, y)].1@[channel]
}

/// The number of the sprite whose cell a pixel lies in.
pub open spec fn sheet_number(x: int, y: int) -> int {
    y / CELL_SIZE as int * GRID_COLS + x / CELL_SIZE as int
}

/// A sprite of one color.
fn solid_rgba(color: [u8; 4]) -> (rgba: Vec<u8>)
    ensures
        rgba@.len() == CELL_BYTES,
        forall|k: int| 0 <= k < CELL_BYTES ==> (#[trigger] rgba@[k]) == color@[k % 4],
{
    let mut rgba: Vec<u8> = Vec::new();
    let mut k: usize = 0;
    while k < CELL_BYTES
        invariant
            k <= CELL_BYTES,
            rgba@.len() == k,
            forall|j: int| 0 <= j < k ==> (#[trigger] rgba@[j]) == color@[j % 4],
        decreases CELL_BYTES - k,
    {
        rgba.push(color[k % 4]);
        k = k + 1;
    }
    rgba
}

impl Atlas {
    /// Size of an atlas with a cell for each sprite.
    fn grid_size() -> (size: (u32, u32))
        ensures
            size == (192u32, 128u32),
    {
        let rows: u32 = (SPRITE_COUNT as u32 + GRID_COLS - 1) / GRID_COLS;
        (GRID_COLS * CELL_SIZE, rows * CELL_SIZE)
    }

    /// The cell of a sprite in pixels: left, top, width and height.
    pub fn cell_rect(id: SpriteId) -> (rect: (u32, u32, u32, u32))
        ensures
            rect.0 == sprite_origin(id).0,
            rect.1 == sprite_origin(id).1,
            rect.2 == CELL_SIZE,
            rect.3 == CELL_SIZE,
    {
        let index: u32 = id.position() as u32;
        let col: u32 = index % GRID_COLS;
        let row: u32 = index / GRID_COLS;
        (col * CELL_SIZE, row * CELL_SIZE, CELL_SIZE, CELL_SIZE)
    }

    /// The cell of a sprite in texture coordinates of this atlas.
    pub fn uv_rect(&self, id: SpriteId) -> (uv: UvRect)
        ensures
            uv == cell_in_texture(sprite_origin(id), self.width, self.height),
    {
        let (x, y, w, h) = Atlas::cell_rect(id);
        UvRect { u0: x, v0: y, u1: x + w, v1: y + h, width: self.width, height: self.height }
    }

    /// Copies the pixels of a sprite into its cell.
    pub fn set_sprite(&mut self, id: SpriteId, rgba: &[u8])
        requires
            rgba@.len() == CELL_BYTES,
            sheet::sprite_fits(
                old(self).pixels@,
                old(self).width as int,
                sprite_origin(id).0,
                sprite_origin(id).1,
            ),
        ensures
            final(self).width == old(self).width,
            final(self).height == old(self).height,
            final(self).pixels@ == sheet::with_sprite(
                old(self).pixels@,
                old(self).width as int,
                sprite_origin(id).0,
                sprite_origin(id).1,
                rgba@,
            ),
    {
        let (x, y, _w, _h) = Atlas::cell_rect(id);
        copy_sprite(&mut self.pixels, self.width, x, y, rgba);
    }

    /// The atlas whose cells are filled with one color each.
    pub fn procedural_placeholder() -> (atlas: Atlas)
        ensures
            is_placeholder(atlas),
    {
        let (width, height) = Atlas::grid_size();
        let mut atlas = Atlas { width, height, pixels: vec![0u8; 98304] };
        let colors = PLACEHOLDER_COLORS;
        let mut i: usize = 0;
        while i < SPRITE_COUNT
            invariant
                i <= SPRITE_COUNT,
                colors == PLACEHOLDER_COLORS,
                atlas.width == 192,
                atlas.height == 128,
                atlas.pixels@.len() == 192 * 128 * 4,
                forall|x: int, y: int, channel: int|
                    0 <= x < 192 && 0 <= y < 128 && 0 <= channel < 4 && sheet_number(x, y) < i
                        ==> #[trigger] sheet::byte_at(atlas.pixels@, 192, x, y, channel)
                        == PLACEHOLDER_COLORS@[sheet_number(x, y)].1@[channel],
            decreases SPRITE_COUNT - i,
        {
            let (id, color) = colors[i];
            let rgba = solid_rgba(color);
            let ghost before = atlas.pixels@;
            let ghost (left, top) = sprite_origin(id);
            assert(sprite_number(id) == i);
            atlas.set_sprite(id, rgba.as_slice());
            proof {
                sheet::law_sprites_fill_their_cell(before, 192, left, top, rgba@, 0, 0, 0);
                assert forall|x: int, y: int, channel: int|
                    0 <= x < 192 && 0 <= y < 128 && 0 <= channel < 4 && sheet_number(x, y)
                        < i + 1 implies #[trigger] sheet::byte_at(
                    atlas.pixels@,
                    192,
                    x,
                    y,
                    channel,
                ) == PLACEHOLDER_COLORS@[sheet_number(x, y)].1@[channel] by {
                    sheet::law_sprites_fill_their_cell(
                        before,
                        192,
                        left,
                        top,
                        rgba@,
                        x,
                        y,
                        channel,
                    );
                    if sheet_number(x, y) == i {
                        assert(rgba@[((y - top) * 64 + (x - left)) * 4 + channel]
                            == color@[channel]);
                    } else {
                        assert(sheet::byte_at(before, 192, x, y, channel)
                            == PLACEHOLDER_COLORS@[sheet_number(x, y)].1@[channel]);
                    }
                }
            }
            i = i + 1;
        }
        atlas
    }
}

/// Every sprite has its own cell, and the cell lies within the atlas.
pub proof fn law_sprites_have_distinct_cells(first: SpriteId, second: SpriteId)
    ensures
        sprite_origin(first) == sprite_origin(second) ==> first == second,
        0 <= sprite_origin(first).0,
        sprite_origin(first).0 + CELL_SIZE <= 192,
        0 <= sprite_origin(first).1,
        sprite_origin(first).1 + CELL_SIZE <= 128,
{
}

/// The list of all sprites holds each at its position.
pub proof fn law_all_sprites_are_listed(id: SpriteId)
    ensures
        0 <= sprite_number(id) < SpriteId::ALL@.len(),
        SpriteId::ALL@[sprite_number(id)] == id,
{
}

/// The sprites are packed three in a row, in the order of the list of all
/// sprites.
pub proof fn law_sprites_are_packed_in_order(k: int)
    requires
        0 <= k < 6,
    ensures
        sprite_origin(SpriteId::ALL@[k]).0 == 64 * (k % 3),
        sprite_origin(SpriteId::ALL@[k]).1 == 64 * (k / 3),
        SpriteId::ALL@.len() == 6,
        SpriteId::ALL@[0] == SpriteId::Paddle,
        SpriteId::ALL@[1] == SpriteId::Ball,
        SpriteId::ALL@[2] == SpriteId::BrickNormal,
        SpriteId::ALL@[3] == SpriteId::BrickArmoredIntact,
        SpriteId::ALL@[4] == SpriteId::BrickArmoredHit,
        SpriteId::ALL@[5] == SpriteId::BrickIndestructible,
{
}

/// Every pixel of a sprite's cell has the color of that sprite, and is opaque.
pub proof fn law_cells_have_the_color_of_their_sprite(
    atlas: Atlas,
    id: SpriteId,
    x: int,
    y: int,
)
    requires
        is_placeholder(atlas),
        0 <= x < 64,
        0 <= y < 64,
    ensures
        ({
            let (left, top) = sprite_origin(id);
            let at = ((top + y) * 192 + (left + x)) * 4;
            let color = match id {
                SpriteId::Paddle => (204u8, 217u8, 242u8),
                SpriteId::Ball => (255u8, 199u8, 51u8),
                SpriteId::BrickNormal => (217u8, 64u8, 64u8),
                SpriteId::BrickArmoredIntact => (77u8, 115u8, 173u8),
                SpriteId::BrickArmoredHit => (230u8, 153u8, 38u8),
                SpriteId::BrickIndestructible => (64u8, 64u8, 71u8),
            };
            &&& atlas.width == 192 && atlas.height == 128
            &&& atlas.pixels@.len() == 4 * atlas.width * atlas.height
            &&& atlas.pixels@[at] == color.0
            &&& atlas.pixels@[at + 1] == color.1
            &&& atlas.pixels@[at + 2] == color.2
            &&& atlas.pixels@[at + 3] == 255
        }),
{
    let (left, top) = sprite_origin(id);
    let px = left + x;
    let py = top + y;
    assert(sheet_number(px, py) == sprite_number(id));
    let color = PLACEHOLDER_COLORS@[sprite_number(id)].1;
    assert(sheet::byte_at(atlas.pixels@, 192, px, py, 0) == color@[0]);
    assert(sheet::byte_at(atlas.pixels@, 192, px, py, 1) == color@[1]);
    assert(sheet::byte_at(atlas.pixels@, 192, px, py, 2) == color@[2]);
    assert(sheet::byte_at(atlas.pixels@, 192, px, py, 3) == color@[3]);
}

/// A pack is warned about by the name of its directory, whatever that is.
pub proof fn law_pack_warnings_name_the_directory(dir: Seq<char>)
    ensures
        pack_warning(dir).take(dir.len() as int) == dir,
        pack_warning(dir).skip(dir.len() as int)
            == ": cannot read texture pack -> procedural textures"@,
{
    assert(pack_warning(dir).take(dir.len() as int) == dir);
    assert(pack_warning(dir).skip(dir.len() as int)
        == ": cannot read texture pack -> procedural textures"@);
}

/// A directory that was given is the pack to draw with and is warned about by its
/// name. Without one there is nothing to warn about.
pub proof fn law_given_directories_are_warned_about(dir: String)
    ensures
        source_for(Some(dir)) == TextureSource::Pack(dir),
        source_for(None) == TextureSource::Procedural,
        warning_of(source_for(Some(dir))) == Some(
            dir@ + ": cannot read texture pack -> procedural textures"@,
        ),
        warning_of(source_for(None)) is None,
{
}

/// In texture coordinates a cell runs from its top-left pixel to the one that is
/// 64 pixels further each way, as shares of the size of the picture.
pub proof fn law_cells_are_squares_in_the_texture(x: int, y: int, width: u32, height: u32)
    requires
        0 <= x <= u32::MAX - 64,
        0 <= y <= u32::MAX - 64,
    ensures
        ({
            let uv = cell_in_texture((x, y), width, height);
            &&& uv.u0 == x && uv.u1 == x + 64
            &&& uv.v0 == y && uv.v1 == y + 64
            &&& uv.width == width && uv.height == height
        }),
{
}

} // verus!
