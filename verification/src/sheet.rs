//! Sprite sheets: square cells packed row by row into one RGBA picture.
//!
//! A picture holds four bytes per pixel, row by row from the top. A sprite
//! fills one cell of it.

use vstd::prelude::*;

verus! {

/// Side of a cell in pixels.
pub const CELL_SIZE: u32 = 64;

/// Bytes of one row of a cell.
pub const CELL_ROW_BYTES: usize = 256;

/// Bytes of a sprite that fills a cell.
pub const CELL_BYTES: usize = 16384;

/// A sequence with a part of it overwritten from `at` on.
pub open spec fn overwritten(target: Seq<u8>, at: int, part: Seq<u8>) -> Seq<u8> {
    Seq::new(
        target.len(),
        |k: int|
            if at <= k < at + part.len() {
                part[k - at]
            } else {
                target[k]
            },
    )
}

/// Row `row` of a sprite.
pub open spec fn sprite_row(rgba: Seq<u8>, row: int) -> Seq<u8> {
    rgba.subrange(row * CELL_ROW_BYTES, (row + 1) * CELL_ROW_BYTES)
}

/// A picture with the first `rows` rows of a sprite copied into it, the first
/// to `start` and each further one `stride` bytes after the one before.
pub open spec fn with_rows(
    pixels: Seq<u8>,
    stride: int,
    start: int,
    rgba: Seq<u8>,
    rows: int,
) -> Seq<u8>
    decreases rows,
{
    if rows <= 0 {
        pixels
    } else {
        overwritten(
            with_rows(pixels, stride, start, rgba, rows - 1),
            start + (rows - 1) * stride,
            sprite_row(rgba, rows - 1),
        )
    }
}

/// A picture `width` pixels wide with a sprite in the cell whose top-left
/// pixel is at `x`, `y`.
pub open spec fn with_sprite(pixels: Seq<u8>, width: int, x: int, y: int, rgba: Seq<u8>) -> Seq<u8> {
    with_rows(pixels, width * 4, y * (width * 4) + x * 4, rgba, CELL_SIZE as int)
}

/// Whether a picture `width` pixels wide holds all bytes that a sprite at `x`,
/// `y` is copied to.
pub open spec fn sprite_fits(pixels: Seq<u8>, width: int, x: int, y: int) -> bool {
    (y + CELL_SIZE - 1) * (width * 4) + x * 4 + CELL_ROW_BYTES <= pixels.len()
}

/// Byte `channel` of the pixel at `x`, `y`.
pub open spec fn byte_at(pixels: Seq<u8>, width: int, x: int, y: int, channel: int) -> u8 {
    pixels[(y * width + x) * 4 + channel]
}

/// The top-left pixel of cell `index` in a sheet of `columns` cells per row.
pub open spec fn cell_origin(index: int, columns: int) -> (int, int) {
    (index % columns * CELL_SIZE, index / columns * CELL_SIZE)
}

/// Copies a sprite into the cell at `x`, `y`.
pub(crate) fn copy_sprite(pixels: &mut Vec<u8>, width: u32, x: u32, y: u32, rgba: &[u8])
    requires
        rgba@.len() == CELL_BYTES,
        sprite_fits(old(pixels)@, width as int, x as int, y as int),
    ensures
        final(pixels)@ == with_sprite(old(pixels)@, width as int, x as int, y as int, rgba@),
{
    let total: usize = pixels.len();
    proof {
        lemma_products(width as int, y as int);
    }
    let stride: usize = width as usize * 4;
    let start: usize = y as usize * stride + x as usize * 4;
    let ghost before = pixels@;
    let mut row: usize = 0;
    while row < CELL_SIZE as usize
        invariant
            row <= CELL_SIZE,
            total == pixels@.len(),
            total == before.len(),
            rgba@.len() == CELL_BYTES,
            stride == width * 4,
            start == y * stride + x * 4,
            start + 63 * stride + CELL_ROW_BYTES <= total,
            pixels@ == with_rows(before, stride as int, start as int, rgba@, row as int),
        decreases CELL_SIZE - row,
    {
        proof {
            assert(row * stride <= 63 * stride) by (nonlinear_arith)
                requires
                    row <= 63,
            ;
        }
        let at: usize = start + row * stride;
        let from: usize = row * CELL_ROW_BYTES;
        let ghost above = pixels@;
        let mut j: usize = 0;
        while j < CELL_ROW_BYTES
            invariant
                j <= CELL_ROW_BYTES,
                row < CELL_SIZE,
                total == pixels@.len(),
                total == above.len(),
                rgba@.len() == CELL_BYTES,
                at + CELL_ROW_BYTES <= total,
                from == row * CELL_ROW_BYTES,
                pixels@ == overwritten(above, at as int, rgba@.subrange(from as int, from + j)),
            decreases CELL_ROW_BYTES - j,
        {
            pixels.set(at + j, rgba[from + j]);
            j = j + 1;
            assert(pixels@ == overwritten(above, at as int, rgba@.subrange(from as int, from + j)));
        }
        assert(rgba@.subrange(from as int, from + j) == sprite_row(rgba@, row as int));
        row = row + 1;
    }
}

proof fn lemma_products(width: int, y: int)
    requires
        0 <= width,
        0 <= y,
    ensures
        0 <= y * (width * 4),
        width * 4 <= (y + CELL_SIZE - 1) * (width * 4),
        (y + CELL_SIZE - 1) * (width * 4) == y * (width * 4) + 63 * (width * 4),
{
    assert(0 <= y * (width * 4)) by (nonlinear_arith)
        requires
            0 <= width,
            0 <= y,
    ;
    assert((y + 63) * (width * 4) == y * (width * 4) + 63 * (width * 4)) by (nonlinear_arith);
}

proof fn lemma_rows_land(
    pixels: Seq<u8>,
    width: int,
    x: int,
    y: int,
    rgba: Seq<u8>,
    rows: int,
    px: int,
    py: int,
    channel: int,
)
    requires
        rgba.len() == CELL_BYTES,
        0 <= x,
        x + CELL_SIZE <= width,
        0 <= y,
        0 <= rows <= CELL_SIZE,
        0 <= px < width,
        0 <= py,
        0 <= channel < 4,
        (py * width + px) * 4 + channel < pixels.len(),
    ensures
        with_rows(pixels, width * 4, y * (width * 4) + x * 4, rgba, rows).len() == pixels.len(),
        byte_at(
            with_rows(pixels, width * 4, y * (width * 4) + x * 4, rgba, rows),
            width,
            px,
            py,
            channel,
        ) == if x <= px < x + CELL_SIZE && y <= py < y + rows {
            byte_at(rgba, CELL_SIZE as int, px - x, py - y, channel)
        } else {
            byte_at(pixels, width, px, py, channel)
        },
    decreases rows,
{
    assert(0 <= py * width) by (nonlinear_arith)
        requires
            0 <= py,
            0 <= width,
    ;
    if rows > 0 {
        let last = rows - 1;
        lemma_rows_land(pixels, width, x, y, rgba, last, px, py, channel);
        let at = y * (width * 4) + x * 4 + last * (width * 4);
        let k = (py * width + px) * 4 + channel;
        assert(at == ((y + last) * width + x) * 4) by (nonlinear_arith)
            requires
                at == y * (width * 4) + x * 4 + last * (width * 4),
        ;
        if py < y + last {
            assert((py + 1) * width <= (y + last) * width) by (nonlinear_arith)
                requires
                    py + 1 <= y + last,
                    0 <= width,
            ;
            assert((py + 1) * width == py * width + width) by (nonlinear_arith);
        } else if py > y + last {
            assert((y + last + 1) * width <= py * width) by (nonlinear_arith)
                requires
                    y + last + 1 <= py,
                    0 <= width,
            ;
            assert((y + last + 1) * width == (y + last) * width + width) by (nonlinear_arith);
        } else {
            assert(k - at == (px - x) * 4 + channel);
        }
        assert(sprite_row(rgba, last).len() == CELL_ROW_BYTES);
    }
}

/// A sprite fills its cell and touches nothing outside of it.
pub proof fn law_sprites_fill_their_cell(
    pixels: Seq<u8>,
    width: int,
    x: int,
    y: int,
    rgba: Seq<u8>,
    px: int,
    py: int,
    channel: int,
)
    requires
        rgba.len() == CELL_BYTES,
        0 <= x,
        x + CELL_SIZE <= width,
        0 <= y,
        0 <= px < width,
        0 <= py,
        0 <= channel < 4,
        (py * width + px) * 4 + channel < pixels.len(),
    ensures
        with_sprite(pixels, width, x, y, rgba).len() == pixels.len(),
        byte_at(with_sprite(pixels, width, x, y, rgba), width, px, py, channel) == if x <= px < x
            + CELL_SIZE && y <= py < y + CELL_SIZE {
            byte_at(rgba, CELL_SIZE as int, px - x, py - y, channel)
        } else {
            byte_at(pixels, width, px, py, channel)
        },
{
    lemma_rows_land(pixels, width, x, y, rgba, CELL_SIZE as int, px, py, channel);
}

/// Distinct cells of a sheet do not overlap.
pub proof fn law_cells_are_disjoint(first: int, second: int, columns: int, px: int, py: int)
    requires
        0 < columns,
        0 <= first,
        0 <= second,
        ({
            let (x, y) = cell_origin(first, columns);
            x <= px < x + CELL_SIZE && y <= py < y + CELL_SIZE
        }),
        ({
            let (x, y) = cell_origin(second, columns);
            x <= px < x + CELL_SIZE && y <= py < y + CELL_SIZE
        }),
    ensures
        first == second,
{
    assert(first % columns == second % columns);
    assert(first / columns == second / columns);
    vstd::arithmetic::div_mod::lemma_fundamental_div_mod(first, columns);
    vstd::arithmetic::div_mod::lemma_fundamental_div_mod(second, columns);
}

/// Cells lie side by side, 64 pixels apart, and a new row begins 64 pixels below
/// once a row is full.
pub proof fn law_cells_lie_side_by_side(index: int, columns: int)
    requires
        0 <= index,
        0 < columns,
    ensures
        cell_origin(0, columns) == (0int, 0int),
        (index + 1) % columns != 0 ==> cell_origin(index + 1, columns) == (
            cell_origin(index, columns).0 + 64,
            cell_origin(index, columns).1,
        ),
        (index + 1) % columns == 0 ==> cell_origin(index + 1, columns) == (
            0int,
            cell_origin(index, columns).1 + 64,
        ),
{
    let next = index + 1;
    vstd::arithmetic::div_mod::lemma_fundamental_div_mod(index, columns);
    vstd::arithmetic::div_mod::lemma_fundamental_div_mod(next, columns);
    vstd::arithmetic::div_mod::lemma_mod_bound(index, columns);
    vstd::arithmetic::div_mod::lemma_mod_bound(next, columns);
    vstd::arithmetic::div_mod::lemma_small_mod(0, columns as nat);
    vstd::arithmetic::div_mod::lemma_div_of0(columns);
    let q = index / columns;
    let r = index % columns;
    assert(columns * q == q * columns) by (nonlinear_arith);
    if r + 1 < columns {
        vstd::arithmetic::div_mod::lemma_fundamental_div_mod_converse(next, columns, q, r + 1);
    } else {
        assert((q + 1) * columns == q * columns + columns) by (nonlinear_arith);
        vstd::arithmetic::div_mod::lemma_fundamental_div_mod_converse(next, columns, q + 1, 0);
    }
}

/// A sprite can be copied to a place exactly if the picture goes on to the end
/// of its last row there.
pub proof fn law_sprites_fit_up_to_their_last_row(pixels: Seq<u8>, width: int, x: int, y: int)
    ensures
        sprite_fits(pixels, width, x, y) <==> ((y + 63) * width + x + 64) * 4 <= pixels.len(),
{
    assert((y + 63) * (width * 4) == (y + 63) * width * 4) by (nonlinear_arith);
}

/// The bytes of a pixel follow one another, those of a row from left to right,
/// and the rows from the top.
pub proof fn law_pixels_are_stored_row_by_row(
    pixels: Seq<u8>,
    width: int,
    x: int,
    y: int,
    channel: int,
)
    ensures
        byte_at(pixels, width, x, y, channel) == pixels[4 * (y * width) + 4 * x + channel],
{
}

} // verus!
