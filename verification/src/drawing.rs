//! Turning the model's brushes into pixels of the overlay's buffer.

use vstd::prelude::*;

use crate::help::{le_bytes, le_bytes_of};
use crate::canvas::Rect;
use crate::model::{BrushStyle, Color, Point};
use crate::pixels::{col_of, filled, lemma_pixel_bytes, pixel_drawn, row_of, u32_to_i32_bits};

verus! {

/// A pen color as ARGB.
pub open spec fn argb_of(color: Color) -> u32 {
    match color {
        Color::Red => 0xFFFF_0000,
        Color::Green => 0xFF00_FF00,
        Color::Blue => 0xFF00_00FF,
        Color::Yellow => 0xFFFF_FF00,
    }
}

/// A pen color as a pixel of the buffer: ARGB, least significant byte first.
pub fn color_to_argb_le(color: Color) -> (res: [u8; 4])
    ensures
        res@ == le_bytes_of(argb_of(color)),
{
    let argb: u32 = match color {
        Color::Red => 0xFFFF_0000,
        Color::Green => 0xFF00_FF00,
        Color::Blue => 0xFF00_00FF,
        Color::Yellow => 0xFFFF_FF00,
    };
    le_bytes(argb)
}

/// The pixel a brush leaves: its color, or transparent black for the eraser.
pub open spec fn brush_bytes(style: BrushStyle) -> Seq<u8> {
    match style {
        BrushStyle::Draw(color) => le_bytes_of(argb_of(color)),
        BrushStyle::Erase => seq![0u8, 0u8, 0u8, 0u8],
    }
}

/// The pixel a brush leaves.
pub fn brush_pixel(style: BrushStyle) -> (res: [u8; 4])
    ensures
        res@ == brush_bytes(style),
{
    match style {
        BrushStyle::Draw(color) => color_to_argb_le(color),
        BrushStyle::Erase => {
            let res = [0u8, 0u8, 0u8, 0u8];
            assert(res@ =~= seq![0u8, 0u8, 0u8, 0u8]);
            res
        },
    }
}

/// Sets pixel (`x`, `y`) of a buffer `width` pixels wide and `height` high to
/// `pixel`, when it lies within that size. The buffer holds every pixel of
/// that size.
pub fn set_pixel(canvas: &mut [u8], width: u32, height: u32, x: i32, y: i32, pixel: [u8; 4])
    requires
        (width as int) * (height as int) * 4 <= old(canvas)@.len(),
        (width as int) * (height as int) * 4 + 4 <= usize::MAX,
    ensures
        final(canvas)@ == if pixel_drawn(old(canvas)@.len() as int, width, height, x as int, y as int) {
            filled(old(canvas)@, width as int, x as int, y as int, x + 1, y + 1, pixel@)
        } else {
            old(canvas)@
        },
{
    if x < 0 || y < 0 || x >= u32_to_i32_bits(width) || y >= u32_to_i32_bits(height) {
        return;
    }
    proof {
        assert((y as int) * (width as int) + (x as int) < (height as int) * (width as int)) by (nonlinear_arith)
            requires
                0 <= y < height,
                0 <= x < width,
        ;
        assert((width as int) * (height as int) == (height as int) * (width as int)) by (nonlinear_arith);
    }
    let offset = (y as usize * width as usize + x as usize) * 4;
    let ghost old_canvas = canvas@;
    canvas[offset] = pixel[0];
    canvas[offset + 1] = pixel[1];
    canvas[offset + 2] = pixel[2];
    canvas[offset + 3] = pixel[3];
    proof {
        let expected = filled(old_canvas, width as int, x as int, y as int, x + 1, y + 1, pixel@);
        assert forall|i: int| 0 <= i < canvas@.len() implies canvas@[i] == expected[i] by {
            lemma_pixel_bytes(i, width as int, y as int, x as int);
        }
        assert(canvas@ =~= expected);
    }
}

/// A coordinate in 1/256 pixel rounded to the nearest pixel, halves away
/// from zero.
pub open spec fn round_to_pixel(v: int) -> int {
    if v >= 0 {
        (v + 128) / 256
    } else {
        -((-v + 128) / 256)
    }
}

/// A length in 1/256 pixel rounded up to whole pixels.
pub open spec fn ceil_to_pixel(v: int) -> int {
    (v + 255) / 256
}

/// Whether the disc of `radius` (in 1/256 pixel) around `center` covers
/// pixel (`x`, `y`): the pixel lies within the square of whole pixels around
/// the center's nearest pixel, and its distance from the exact center is at
/// most the radius.
pub open spec fn disc_covers(center: Point, radius: u32, x: int, y: int) -> bool {
    let cx = round_to_pixel(center.x as int);
    let cy = round_to_pixel(center.y as int);
    let r = ceil_to_pixel(radius as int);
    let ex = 256 * (x - cx) - (center.x - 256 * cx);
    let ey = 256 * (y - cy) - (center.y - 256 * cy);
    &&& -r <= x - cx <= r
    &&& -r <= y - cy <= r
    &&& ex * ex + ey * ey <= (radius as int) * (radius as int)
}

/// Whether byte `i` belongs to a pixel of the disc that the row-by-row fill
/// has reached before row offset `dy`, column offset `dx`.
pub open spec fn disc_hit(center: Point, radius: u32, w: int, i: int, dy: int, dx: int) -> bool {
    let x = col_of(i, w);
    let y = row_of(i, w);
    let cx = round_to_pixel(center.x as int);
    let cy = round_to_pixel(center.y as int);
    &&& w > 0
    &&& i >= 0
    &&& disc_covers(center, radius, x, y)
    &&& (y - cy < dy || (y - cy == dy && x - cx < dx))
}

/// The buffer with the pixels of the disc reached before (`dy`, `dx`) set to
/// `pixel`, each where it lies within the buffer.
pub open spec fn disc_painted_upto(
    s: Seq<u8>,
    width: u32,
    height: u32,
    center: Point,
    radius: u32,
    pixel: Seq<u8>,
    dy: int,
    dx: int,
) -> Seq<u8> {
    Seq::new(
        s.len(),
        |i: int|
            if disc_hit(center, radius, width as int, i, dy, dx) && pixel_drawn(
                s.len() as int,
                width,
                height,
                col_of(i, width as int),
                row_of(i, width as int),
            ) {
                pixel[i % 4]
            } else {
                s[i]
            },
    )
}

/// The buffer with the disc of `radius` around `center` set to `pixel`,
/// clipped to the buffer.
pub open spec fn disc_painted(s: Seq<u8>, width: u32, height: u32, center: Point, radius: u32, pixel: Seq<u8>) -> Seq<u8> {
    disc_painted_upto(s, width, height, center, radius, pixel, ceil_to_pixel(radius as int) + 1, 0)
}

fn round_exec(v: i32) -> (res: i32)
    ensures
        res == round_to_pixel(v as int),
        -0x80_0001 <= res <= 0x80_0000,
{
    let w = v as i64;
    if w >= 0 {
        ((w + 128) / 256) as i32
    } else {
        (-((-w + 128) / 256)) as i32
    }
}

/// Fills the disc of `radius` around `center` (both in 1/256 pixel) with
/// `pixel`, clipped to the buffer, which holds every pixel of its size.
pub fn fill_circle(canvas: &mut [u8], width: u32, height: u32, center: Point, radius: u32, pixel: [u8; 4])
    requires
        (width as int) * (height as int) * 4 <= old(canvas)@.len(),
        (width as int) * (height as int) * 4 + 4 <= usize::MAX,
    ensures
        final(canvas)@ == disc_painted(old(canvas)@, width, height, center, radius, pixel@),
{
    let r = ((radius as u64 + 255) / 256) as i32;
    let cx = round_exec(center.x);
    let cy = round_exec(center.y);
    let fx = center.x as i128 - 256 * cx as i128;
    let fy = center.y as i128 - 256 * cy as i128;
    proof {
        assert((radius as int) * (radius as int) <= 0x1_0000_0000_0000_0000) by (nonlinear_arith)
            requires
                radius <= u32::MAX,
        ;
    }
    let r_sq = radius as i128 * radius as i128;
    assert(-128 <= fx <= 128 && -128 <= fy <= 128);
    let ghost s0 = canvas@;
    let ghost len = s0.len() as int;
    let mut dy: i32 = -r;
    while dy <= r
        invariant
            -r <= dy <= r + 1,
            r == ceil_to_pixel(radius as int),
            0 <= r <= 0x100_0000,
            cx == round_to_pixel(center.x as int),
            cy == round_to_pixel(center.y as int),
            -0x80_0001 <= cx <= 0x80_0000,
            -0x80_0001 <= cy <= 0x80_0000,
            fx == center.x - 256 * cx,
            fy == center.y - 256 * cy,
            -128 <= fx <= 128,
            -128 <= fy <= 128,
            r_sq == (radius as int) * (radius as int),
            (width as int) * (height as int) * 4 <= len,
            (width as int) * (height as int) * 4 + 4 <= usize::MAX,
            canvas@.len() == len,
            s0.len() == len,
            canvas@ == disc_painted_upto(s0, width, height, center, radius, pixel@, dy as int, -r as int),
        decreases r + 1 - dy,
    {
        let mut dx: i32 = -r;
        while dx <= r
            invariant
                -r <= dy <= r,
                -r <= dx <= r + 1,
                r == ceil_to_pixel(radius as int),
                0 <= r <= 0x100_0000,
                cx == round_to_pixel(center.x as int),
                cy == round_to_pixel(center.y as int),
                -0x80_0001 <= cx <= 0x80_0000,
                -0x80_0001 <= cy <= 0x80_0000,
                fx == center.x - 256 * cx,
                fy == center.y - 256 * cy,
                -128 <= fx <= 128,
                -128 <= fy <= 128,
                r_sq == (radius as int) * (radius as int),
                (width as int) * (height as int) * 4 <= len,
                (width as int) * (height as int) * 4 + 4 <= usize::MAX,
                canvas@.len() == len,
                s0.len() == len,
                canvas@ == disc_painted_upto(s0, width, height, center, radius, pixel@, dy as int, dx as int),
            decreases r + 1 - dx,
        {
            let ex = 256 * dx as i128 - fx;
            let ey = 256 * dy as i128 - fy;
            proof {
                assert(0 <= ex * ex <= 0x4_0000_0000_0000_0000) by (nonlinear_arith)
                    requires
                        -0x2_0000_0000 <= ex <= 0x2_0000_0000,
                ;
                assert(0 <= ey * ey <= 0x4_0000_0000_0000_0000) by (nonlinear_arith)
                    requires
                        -0x2_0000_0000 <= ey <= 0x2_0000_0000,
                ;
            }
            let ghost before = canvas@;
            let x = cx + dx;
            let y = cy + dy;
            if ex * ex + ey * ey <= r_sq {
                set_pixel(canvas, width, height, x, y, pixel);
            }
            proof {
                let next = disc_painted_upto(s0, width, height, center, radius, pixel@, dy as int, dx + 1);
                assert forall|i: int| 0 <= i < len implies canvas@[i] == next[i] by {
                    if width > 0 && 0 <= x < width && y >= 0 {
                        lemma_pixel_bytes(i, width as int, y as int, x as int);
                    }
                    assert(before[i] == disc_painted_upto(s0, width, height, center, radius, pixel@, dy as int, dx as int)[i]);
                }
                assert(canvas@ =~= next);
            }
            dx = dx + 1;
        }
        proof {
            let a = disc_painted_upto(s0, width, height, center, radius, pixel@, dy as int, dx as int);
            let b = disc_painted_upto(s0, width, height, center, radius, pixel@, dy + 1, -r as int);
            assert forall|i: int| 0 <= i < len implies a[i] == b[i] by {
                assert(disc_hit(center, radius, width as int, i, dy as int, dx as int)
                    == disc_hit(center, radius, width as int, i, dy + 1, -r as int));
            }
            assert(a =~= b);
        }
        dy = dy + 1;
    }
    proof {
        let a = disc_painted_upto(s0, width, height, center, radius, pixel@, dy as int, -r as int);
        let b = disc_painted(s0, width, height, center, radius, pixel@);
        assert forall|i: int| 0 <= i < len implies a[i] == b[i] by {
            assert(disc_hit(center, radius, width as int, i, dy as int, -r as int)
                == disc_hit(center, radius, width as int, i, r + 1, 0));
        }
        assert(a =~= b);
    }
}

/// A coordinate in 1/256 pixel rounded down to whole pixels.
pub open spec fn floor_px(v: int) -> int {
    v / 256
}

/// A coordinate in 1/256 pixel rounded up to whole pixels.
pub open spec fn ceil_px(v: int) -> int {
    -((-v) / 256)
}

pub(crate) fn floor_px_exec(v: i64) -> (res: i64)
    requires
        -0x1_0000_0000_0000 <= v <= 0x1_0000_0000_0000,
    ensures
        res == floor_px(v as int),
{
    if v >= 0 {
        v / 256
    } else {
        -((-v + 255) / 256)
    }
}

pub(crate) fn ceil_px_exec(v: i64) -> (res: i64)
    requires
        -0x1_0000_0000_0000 <= v <= 0x1_0000_0000_0000,
    ensures
        res == ceil_px(v as int),
{
    if v >= 0 {
        (v + 255) / 256
    } else {
        -((-v) / 256)
    }
}

/// The whole pixels between `lo` and `hi` (in 1/256 pixel), clipped to
/// `0..size`, as (start, length).
pub open spec fn span_px(lo: int, hi: int, size: int) -> (int, int) {
    let start = if floor_px(lo) >= 0 { floor_px(lo) } else { 0 };
    let end = if ceil_px(hi) <= size { ceil_px(hi) } else { size };
    (start, if end - start >= 0 { end - start } else { 0 })
}

fn span_px_exec(lo: i64, hi: i64, size: u32) -> (res: (i32, i32))
    requires
        -0x1_0000_0000_0000 <= lo <= 0x1_0000_0000_0000,
        -0x1_0000_0000_0000 <= hi <= 0x1_0000_0000_0000,
        hi <= 0x7f_0000_0000,
        lo <= 0x7f_0000_0000,
    ensures
        (res.0 as int, res.1 as int) == span_px(lo as int, hi as int, size as int),
{
    let f = floor_px_exec(lo);
    let start = if f >= 0 { f } else { 0 };
    let c = ceil_px_exec(hi);
    let end = if c <= size as i64 { c } else { size as i64 };
    let len = if end - start >= 0 { end - start } else { 0 };
    (start as i32, len as i32)
}

/// The pixels that the disc of `radius` around `center` may touch, clipped
/// to the buffer: from the center less the radius rounded down to the center
/// plus the radius rounded up.
pub open spec fn spec_circle_dirty_rect(center: Point, radius: u32, width: u32, height: u32) -> Rect {
    let (x, w) = span_px(center.x - radius, center.x + radius, width as int);
    let (y, h) = span_px(center.y - radius, center.y + radius, height as int);
    Rect { x: x as i32, y: y as i32, width: w as i32, height: h as i32 }
}

/// The pixels that the disc of `radius` around `center` may touch, clipped
/// to the buffer.
pub fn circle_dirty_rect(center: Point, radius: u32, width: u32, height: u32) -> (res: Rect)
    ensures
        res == spec_circle_dirty_rect(center, radius, width, height),
{
    let r = radius as i64;
    let (x, w) = span_px_exec(center.x as i64 - r, center.x as i64 + r, width);
    let (y, h) = span_px_exec(center.y as i64 - r, center.y as i64 + r, height);
    Rect { x, y, width: w, height: h }
}

/// The pixels that a line of `radius` from `from` to `to` may touch, clipped
/// to the buffer: the box of both ends, grown by the radius.
pub open spec fn spec_stroke_dirty_rect(from: Point, to: Point, radius: u32, width: u32, height: u32) -> Rect {
    let min_x = if from.x <= to.x { from.x as int } else { to.x as int };
    let max_x = if from.x >= to.x { from.x as int } else { to.x as int };
    let min_y = if from.y <= to.y { from.y as int } else { to.y as int };
    let max_y = if from.y >= to.y { from.y as int } else { to.y as int };
    let (x, w) = span_px(min_x - radius, max_x + radius, width as int);
    let (y, h) = span_px(min_y - radius, max_y + radius, height as int);
    Rect { x: x as i32, y: y as i32, width: w as i32, height: h as i32 }
}

/// The pixels that a line of `radius` from `from` to `to` may touch, clipped
/// to the buffer.
pub fn stroke_dirty_rect(from: Point, to: Point, radius: u32, width: u32, height: u32) -> (res: Rect)
    ensures
        res == spec_stroke_dirty_rect(from, to, radius, width, height),
{
    let r = radius as i64;
    let min_x = if from.x <= to.x { from.x } else { to.x } as i64;
    let max_x = if from.x >= to.x { from.x } else { to.x } as i64;
    let min_y = if from.y <= to.y { from.y } else { to.y } as i64;
    let max_y = if from.y >= to.y { from.y } else { to.y } as i64;
    let (x, w) = span_px_exec(min_x - r, max_x + r, width);
    let (y, h) = span_px_exec(min_y - r, max_y + r, height);
    Rect { x, y, width: w, height: h }
}

} // verus!
