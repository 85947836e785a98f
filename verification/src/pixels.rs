//! Drawing into raw buffers of 4-byte pixels laid out row by row.

use vstd::arithmetic::div_mod::lemma_fundamental_div_mod_converse;
use vstd::prelude::*;

verus! {

/// The pixel a byte belongs to.
pub open spec fn pixel_of(i: int) -> int {
    i / 4
}

/// The row of the pixel a byte belongs to, in a buffer `w` pixels wide.
pub open spec fn row_of(i: int, w: int) -> int {
    (i / 4) / w
}

/// The column of the pixel a byte belongs to, in a buffer `w` pixels wide.
pub open spec fn col_of(i: int, w: int) -> int {
    (i / 4) % w
}

/// The bytes of pixel (`row`, `col`) are exactly those whose row and
/// column are those.
pub proof fn lemma_pixel_bytes(i: int, w: int, row: int, col: int)
    requires
        w > 0,
        row >= 0,
        0 <= col < w,
        i >= 0,
    ensures
        (4 * (row * w + col) <= i < 4 * (row * w + col) + 4) <==> (row_of(i, w) == row && col_of(i, w)
            == col),
        (4 * (row * w + col) <= i < 4 * (row * w + col) + 4) ==> i % 4 == i - 4 * (row * w + col)
            && pixel_of(i) == row * w + col,
{
    let k = row * w + col;
    assert(k >= 0) by (nonlinear_arith)
        requires
            w > 0,
            row >= 0,
            col >= 0,
            k == row * w + col,
    ;
    if 4 * k <= i < 4 * k + 4 {
        lemma_fundamental_div_mod_converse(i, 4, k, i - 4 * k);
        lemma_fundamental_div_mod_converse(k, w, row, col);
    }
    if row_of(i, w) == row && col_of(i, w) == col {
        let q = i / 4;
        assert(i == 4 * q + i % 4) by {
            lemma_fundamental_div_mod_converse(i, 4, i / 4, i % 4);
            vstd::arithmetic::div_mod::lemma_fundamental_div_mod(i, 4);
        }
        vstd::arithmetic::div_mod::lemma_fundamental_div_mod(q, w);
        assert(q == w * row + col);
        assert(q == row * w + col) by (nonlinear_arith)
            requires
                q == w * row + col,
        ;
        vstd::arithmetic::div_mod::lemma_mod_bound(i, 4);
    }
}

/// Whether the byte `i` belongs to a pixel of the rectangle of columns
/// `x0..x1` and rows `y0..y1` that lies wholly within `len` bytes.
pub open spec fn in_block(i: int, w: int, x0: int, y0: int, x1: int, y1: int, len: int) -> bool {
    &&& w > 0
    &&& y0 <= row_of(i, w) < y1
    &&& x0 <= col_of(i, w) < x1
    &&& 4 * pixel_of(i) + 4 <= len
}

/// The buffer with the pixels of the rectangle set to `px`.
pub open spec fn filled(s: Seq<u8>, w: int, x0: int, y0: int, x1: int, y1: int, px: Seq<u8>) -> Seq<u8> {
    Seq::new(
        s.len(),
        |i: int|
            if in_block(i, w, x0, y0, x1, y1, s.len() as int) {
                px[i % 4]
            } else {
                s[i]
            },
    )
}

/// An `i32` as the `u32` of the same bits.
pub open spec fn i32_bits_as_u32(v: int) -> int {
    if v >= 0 {
        v
    } else {
        v + 0x1_0000_0000
    }
}

/// A `u32` as the `i32` of the same bits.
pub open spec fn u32_bits_as_i32(v: int) -> int {
    if v <= i32::MAX {
        v
    } else {
        v - 0x1_0000_0000
    }
}

/// `v as i32` for a `u32`.
pub fn u32_to_i32_bits(v: u32) -> (res: i32)
    ensures
        res == u32_bits_as_i32(v as int),
{
    if v <= 0x7fff_ffff {
        v as i32
    } else {
        (v as i64 - 0x1_0000_0000) as i32
    }
}

/// `v as u32` for an `i32`.
pub fn i32_to_u32_bits(v: i32) -> (res: u32)
    ensures
        res == i32_bits_as_u32(v as int),
{
    if v >= 0 {
        v as u32
    } else {
        (v as i64 + 0x1_0000_0000) as u32
    }
}

/// Writes the 4 bytes of a pixel at `offset`.
fn put_pixel(canvas: &mut [u8], offset: usize, px: [u8; 4])
    requires
        offset + 4 <= old(canvas)@.len(),
    ensures
        final(canvas)@.len() == old(canvas)@.len(),
        forall|i: int| 0 <= i < final(canvas)@.len() ==> #[trigger] final(canvas)@[i] == if offset <= i
            < offset + 4 {
            px@[i - offset]
        } else {
            old(canvas)@[i]
        },
{
    canvas[offset] = px[0];
    canvas[offset + 1] = px[1];
    canvas[offset + 2] = px[2];
    canvas[offset + 3] = px[3];
}

/// Whether the pixel (`x`, `y`) is drawn by [`set_pixel`]: it lies inside
/// the buffer's size and its bytes inside the buffer.
pub open spec fn pixel_drawn(len: int, buf_width: u32, buf_height: u32, x: int, y: int) -> bool {
    &&& x >= 0
    &&& y >= 0
    &&& x < u32_bits_as_i32(buf_width as int)
    &&& y < u32_bits_as_i32(buf_height as int)
    &&& (y * buf_width + x) * 4 + 4 <= len
}

/// Sets pixel (`x`, `y`) of a buffer `buf_width` pixels wide and
/// `buf_height` high to `color`, when it lies within the buffer.
pub fn set_pixel(canvas: &mut [u8], buf_width: u32, buf_height: u32, x: i32, y: i32, color: [u8; 4])
    requires
        (buf_width as int) * (buf_height as int) * 4 + 4 <= usize::MAX,
    ensures
        final(canvas)@ == if pixel_drawn(old(canvas)@.len() as int, buf_width, buf_height, x as int, y as int) {
            filled(old(canvas)@, buf_width as int, x as int, y as int, x + 1, y + 1, color@)
        } else {
            old(canvas)@
        },
{
    if x < 0 || y < 0 || x >= u32_to_i32_bits(buf_width) || y >= u32_to_i32_bits(buf_height) {
        return;
    }
    proof {
        assert((y as int) * (buf_width as int) + (x as int) <= (buf_height as int) * (buf_width as int)) by (nonlinear_arith)
            requires
                0 <= y < buf_height,
                0 <= x < buf_width,
        ;
        assert((buf_width as int) * (buf_height as int) == (buf_height as int) * (buf_width as int)) by (nonlinear_arith);
    }
    let offset = (y as usize * buf_width as usize + x as usize) * 4;
    if offset + 4 <= canvas.len() {
        let ghost old_canvas = canvas@;
        put_pixel(canvas, offset, color);
        proof {
            let expected = filled(old_canvas, buf_width as int, x as int, y as int, x + 1, y + 1, color@);
            assert forall|i: int| 0 <= i < canvas@.len() implies canvas@[i] == expected[i] by {
                lemma_pixel_bytes(i, buf_width as int, y as int, x as int);
            }
            assert(canvas@ =~= expected);
        }
    }
}


/// Whether byte `i` belongs to a pixel that the row-by-row fill of columns
/// `x0..x1` has reached before (`r`, `c`).
pub open spec fn reached(i: int, w: int, x0: int, y0: int, x1: int, r: int, c: int, len: int) -> bool {
    &&& w > 0
    &&& 4 * pixel_of(i) + 4 <= len
    &&& x0 <= col_of(i, w)
    &&& ((y0 <= row_of(i, w) < r && col_of(i, w) < x1) || (row_of(i, w) == r && col_of(i, w) < c))
}

/// The rectangle that [`fill_rect`] fills: the part of the rectangle from
/// (`x`, `y`) to (`x + w`, `y + h`) that lies within the buffer, as its
/// corners (empty when the first corner is not before the second).
pub open spec fn fill_bounds(buf_width: u32, buf_height: u32, x: i32, y: i32, w: u32, h: u32) -> (int, int, int, int) {
    let x0 = if x >= 0 { x as int } else { 0 };
    let y0 = if y >= 0 { y as int } else { 0 };
    let x1 = if x + w <= buf_width { x + w } else { buf_width as int };
    let y1 = if y + h <= buf_height { y + h } else { buf_height as int };
    (x0, y0, x1, y1)
}

/// Whether the buffer's size keeps [`fill_rect`]'s offsets within `usize`.
pub open spec fn fill_fits(buf_width: u32, buf_height: u32, x: i32, y: i32, w: u32, h: u32) -> bool {
    (buf_width as int) * (buf_height as int) * 4 + 4 <= usize::MAX
}

/// Fills the rectangle at (`x`, `y`) of `w` by `h` pixels with `pixel`,
/// clipped to the buffer: see [`fill_bounds`].
pub fn fill_rect(
    canvas: &mut [u8],
    buf_width: u32,
    buf_height: u32,
    x: i32,
    y: i32,
    w: u32,
    h: u32,
    pixel: [u8; 4],
)
    requires
        fill_fits(buf_width, buf_height, x, y, w, h),
    ensures
        ({
            let (x0, y0, x1, y1) = fill_bounds(buf_width, buf_height, x, y, w, h);
            final(canvas)@ == filled(old(canvas)@, buf_width as int, x0, y0, x1, y1, pixel@)
        }),
{
    let ex0: i64 = if x >= 0 { x as i64 } else { 0 };
    let ey0: i64 = if y >= 0 { y as i64 } else { 0 };
    let ex1: i64 = if x as i64 + w as i64 <= buf_width as i64 { x as i64 + w as i64 } else { buf_width as i64 };
    let ey1: i64 = if y as i64 + h as i64 <= buf_height as i64 { y as i64 + h as i64 } else { buf_height as i64 };
    if ex1 <= ex0 || ey1 <= ey0 {
        proof {
            let (fx0, fy0, fx1, fy1) = fill_bounds(buf_width, buf_height, x, y, w, h);
            let expected = filled(canvas@, buf_width as int, fx0, fy0, fx1, fy1, pixel@);
            assert forall|i: int| 0 <= i < canvas@.len() implies canvas@[i] == expected[i] by {
                assert(!in_block(i, buf_width as int, fx0, fy0, fx1, fy1, canvas@.len() as int));
            }
            assert(canvas@ =~= expected);
        }
        return;
    }
    let x0: u32 = ex0 as u32;
    let y0: u32 = ey0 as u32;
    let x1: u32 = ex1 as u32;
    let y1: u32 = ey1 as u32;
    let ghost s0 = canvas@;
    let ghost len = s0.len() as int;
    let ghost bw = buf_width as int;
    let mut row = y0;
    while row < y1
        invariant
            y0 <= row,
            row <= y1 || row == y0,
            y1 <= buf_height,
            x1 <= buf_width,
            bw == buf_width,
            (buf_width as int) * (buf_height as int) * 4 + 4 <= usize::MAX,
            canvas@.len() == len,
            s0.len() == len,
            forall|i: int| 0 <= i < len ==> #[trigger] canvas@[i] == if reached(i, bw, x0 as int, y0 as int, x1 as int, row as int, 0, len) {
                pixel@[i % 4]
            } else {
                s0[i]
            },
        decreases y1 - row,
    {
        let mut col = x0;
        while col < x1
            invariant
                y0 <= row < y1,
                x0 <= col,
                col <= x1 || col == x0,
                y1 <= buf_height,
                x1 <= buf_width,
                bw == buf_width,
                (buf_width as int) * (buf_height as int) * 4 + 4 <= usize::MAX,
                canvas@.len() == len,
                s0.len() == len,
                forall|i: int| 0 <= i < len ==> #[trigger] canvas@[i] == if reached(i, bw, x0 as int, y0 as int, x1 as int, row as int, col as int, len) {
                    pixel@[i % 4]
                } else {
                    s0[i]
                },
            decreases x1 - col,
        {
            proof {
                assert((row as int) * bw + (col as int) < (buf_height as int) * bw) by (nonlinear_arith)
                    requires
                        0 <= row < buf_height,
                        0 <= col < bw,
                ;
                assert((buf_width as int) * (buf_height as int) == (buf_height as int) * bw) by (nonlinear_arith)
                    requires bw == buf_width;
            }
            let offset = (row as usize * buf_width as usize + col as usize) * 4;
            let ghost before = canvas@;
            if offset + 4 <= canvas.len() {
                put_pixel(canvas, offset, pixel);
            }
            proof {
                assert forall|i: int| 0 <= i < len implies #[trigger] canvas@[i] == if reached(i, bw, x0 as int, y0 as int, x1 as int, row as int, col + 1, len) {
                    pixel@[i % 4]
                } else {
                    s0[i]
                } by {
                    lemma_pixel_bytes(i, bw, row as int, col as int);
                    assert(before[i] == if reached(i, bw, x0 as int, y0 as int, x1 as int, row as int, col as int, len) {
                        pixel@[i % 4]
                    } else {
                        s0[i]
                    });
                }
            }
            col = col + 1;
        }
        proof {
            assert forall|i: int| 0 <= i < len implies #[trigger] canvas@[i] == if reached(i, bw, x0 as int, y0 as int, x1 as int, row + 1, 0, len) {
                pixel@[i % 4]
            } else {
                s0[i]
            } by {
                if x0 < x1 {
                    assert(reached(i, bw, x0 as int, y0 as int, x1 as int, row as int, col as int, len)
                        == reached(i, bw, x0 as int, y0 as int, x1 as int, row + 1, 0, len));
                } else {
                    assert(reached(i, bw, x0 as int, y0 as int, x1 as int, row as int, 0, len)
                        == reached(i, bw, x0 as int, y0 as int, x1 as int, row + 1, 0, len));
                }
            }
        }
        row = row + 1;
    }
    proof {
        let (fx0, fy0, fx1, fy1) = fill_bounds(buf_width, buf_height, x, y, w, h);
        let expected = filled(s0, bw, fx0, fy0, fx1, fy1, pixel@);
        assert forall|i: int| 0 <= i < len implies canvas@[i] == expected[i] by {
            if y0 < y1 {
                assert(reached(i, bw, x0 as int, y0 as int, x1 as int, row as int, 0, len)
                    == in_block(i, bw, fx0, fy0, fx1, fy1, len));
            } else {
                assert(!in_block(i, bw, fx0, fy0, fx1, fy1, len));
            }
        }
        assert(canvas@ =~= expected);
    }
}

} // verus!
