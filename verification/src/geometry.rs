//! Pixel addressing: which bytes of the buffer a pixel occupies, and how a
//! glyph's pixels add up to the whole glyph.
use crate::font::{CHAR_RASTER_HEIGHT, CHAR_RASTER_WIDTH};
use crate::model::{blit_glyph, blit_pixel, pixel_bytes, FrameBufferInfo};
use vstd::arithmetic::div_mod::{lemma_fundamental_div_mod, lemma_fundamental_div_mod_converse};
use vstd::prelude::*;

verus! {

/// A pixel inside the console lies inside the buffer, all its bytes.
pub proof fn lemma_pixel_in_buffer(info: FrameBufferInfo, byte_len: nat, x: int, y: int)
    requires
        info.valid_for(byte_len),
        0 <= x < info.stride,
        0 <= y < info.height,
    ensures
        0 <= y * info.stride <= y * info.stride + x < info.stride * info.height <= byte_len,
        0 <= info.byte_offset(x, y),
        info.byte_offset(x, y) + info.bytes_per_pixel <= byte_len,
{
    let stride = info.stride as int;
    let height = info.height as int;
    let bpp = info.bytes_per_pixel as int;
    let pixel = y * stride + x;
    assert(0 <= y * stride && (y + 1) * stride <= height * stride) by (nonlinear_arith)
        requires
            0 <= y < height,
            0 <= stride,
    ;
    assert((y + 1) * stride == y * stride + stride) by (nonlinear_arith);
    assert(height * stride == stride * height) by (nonlinear_arith);
    assert(0 <= pixel * bpp && (pixel + 1) * bpp <= (stride * height) * bpp) by (nonlinear_arith)
        requires
            0 <= pixel,
            pixel + 1 <= stride * height,
            0 <= bpp,
    ;
    assert((pixel + 1) * bpp == pixel * bpp + bpp) by (nonlinear_arith);
    assert(stride * height <= (stride * height) * bpp) by (nonlinear_arith)
        requires
            0 <= stride * height,
            1 <= bpp,
    ;
}

/// In a console that fits a buffer, a cursor left of the right edge can be
/// moved one glyph to the right without leaving the range of `usize`.
pub proof fn lemma_cursor_sums_fit(info: FrameBufferInfo, byte_len: nat)
    requires
        info.valid_for(byte_len),
    ensures
        info.width + CHAR_RASTER_WIDTH <= usize::MAX,
{
    let stride = info.stride as int;
    let height = info.height as int;
    let bpp = info.bytes_per_pixel as int;
    assert(stride * 19 <= stride * height * bpp) by (nonlinear_arith)
        requires
            19 <= height,
            11 <= stride,
            1 <= bpp,
    ;
}

/// Byte `i` is one of the bytes of the pixel at `x`, `y` exactly when the
/// pixel it belongs to, `i / bytes_per_pixel`, lies in column `x` of line `y`;
/// it is then byte `i % bytes_per_pixel` of that pixel.
pub proof fn lemma_pixel_of_byte(info: FrameBufferInfo, i: int, x: int, y: int)
    requires
        info.stride > 0,
        info.bytes_per_pixel > 0,
        0 <= i,
        0 <= x < info.stride,
        0 <= y,
    ensures
        (info.byte_offset(x, y) <= i < info.byte_offset(x, y) + info.bytes_per_pixel) <==> ((i / (
        info.bytes_per_pixel as int)) % (info.stride as int) == x && (i / (
        info.bytes_per_pixel as int)) / (info.stride as int) == y),
        info.byte_offset(x, y) <= i < info.byte_offset(x, y) + info.bytes_per_pixel ==> i % (
        info.bytes_per_pixel as int) == i - info.byte_offset(x, y),
{
    let stride = info.stride as int;
    let bpp = info.bytes_per_pixel as int;
    let target = y * stride + x;
    let start = info.byte_offset(x, y);
    assert(start == target * bpp);
    if start <= i < start + bpp {
        lemma_fundamental_div_mod_converse(i, bpp, target, i - start);
        lemma_fundamental_div_mod_converse(target, stride, y, x);
    }
    if (i / bpp) % stride == x && (i / bpp) / stride == y {
        let pixel = i / bpp;
        lemma_fundamental_div_mod(pixel, stride);
        assert(stride * y == y * stride) by (nonlinear_arith);
        assert(pixel == target);
        lemma_fundamental_div_mod(i, bpp);
        assert(bpp * pixel == pixel * bpp) by (nonlinear_arith);
    }
}

/// `buffer` with the first `done` pixels of `glyph` drawn, counted line by
/// line from the glyph's top left corner at `x`, `y`.
pub open spec fn blit_glyph_upto(
    buffer: Seq<u8>,
    info: FrameBufferInfo,
    x: int,
    y: int,
    glyph: Seq<Seq<u8>>,
    color: [u8; 3],
    done: int,
) -> Seq<u8> {
    Seq::new(
        buffer.len(),
        |i: int|
            {
                let pixel = i / (info.bytes_per_pixel as int);
                let col = pixel % (info.stride as int) - x;
                let row = pixel / (info.stride as int) - y;
                if 0 <= row < CHAR_RASTER_HEIGHT && 0 <= col < CHAR_RASTER_WIDTH && row
                    * CHAR_RASTER_WIDTH + col < done {
                    pixel_bytes(info.pixel_format, color, glyph[row][col])->Some_0[i % (
                    info.bytes_per_pixel as int)]
                } else {
                    buffer[i]
                }
            },
    )
}

/// With no pixel drawn the buffer is as it was; with all of them drawn it
/// holds the glyph.
pub proof fn lemma_blit_glyph_ends(
    buffer: Seq<u8>,
    info: FrameBufferInfo,
    x: int,
    y: int,
    glyph: Seq<Seq<u8>>,
    color: [u8; 3],
)
    ensures
        blit_glyph_upto(buffer, info, x, y, glyph, color, 0) == buffer,
        blit_glyph_upto(buffer, info, x, y, glyph, color, CHAR_RASTER_HEIGHT * CHAR_RASTER_WIDTH)
            == blit_glyph(buffer, info, x, y, glyph, color),
{
    assert(blit_glyph_upto(buffer, info, x, y, glyph, color, 0) =~= buffer);
    assert(blit_glyph_upto(
        buffer,
        info,
        x,
        y,
        glyph,
        color,
        CHAR_RASTER_HEIGHT * CHAR_RASTER_WIDTH,
    ) =~= blit_glyph(buffer, info, x, y, glyph, color));
}

/// Drawing the glyph's pixel at `row`, `col` over its earlier pixels gives the
/// glyph drawn up to and including that pixel.
pub proof fn lemma_blit_glyph_step(
    buffer: Seq<u8>,
    info: FrameBufferInfo,
    x: int,
    y: int,
    glyph: Seq<Seq<u8>>,
    color: [u8; 3],
    row: int,
    col: int,
)
    requires
        info.bytes_per_pixel > 0,
        0 <= x,
        0 <= y,
        x + CHAR_RASTER_WIDTH <= info.stride,
        0 <= row < CHAR_RASTER_HEIGHT,
        0 <= col < CHAR_RASTER_WIDTH,
    ensures
        blit_pixel(
            blit_glyph_upto(buffer, info, x, y, glyph, color, row * CHAR_RASTER_WIDTH + col),
            info,
            x + col,
            y + row,
            pixel_bytes(info.pixel_format, color, glyph[row][col])->Some_0,
        ) == blit_glyph_upto(buffer, info, x, y, glyph, color, row * CHAR_RASTER_WIDTH + col + 1),
{
    let done = row * CHAR_RASTER_WIDTH + col;
    let before = blit_glyph_upto(buffer, info, x, y, glyph, color, done);
    let after = blit_glyph_upto(buffer, info, x, y, glyph, color, done + 1);
    let px = pixel_bytes(info.pixel_format, color, glyph[row][col])->Some_0;
    let drawn = blit_pixel(before, info, x + col, y + row, px);
    assert forall|i: int| 0 <= i < buffer.len() implies drawn[i] == after[i] by {
        lemma_pixel_of_byte(info, i, x + col, y + row);
    }
    assert(drawn =~= after);
}

} // verus!
