//! Presenting the off-screen canvas: copying damaged rectangles into the
//! buffer the compositor shows.

use vstd::prelude::*;

use crate::canvas::Rect;
use crate::pixels::{col_of, lemma_pixel_bytes, row_of};

verus! {

/// The columns `x0..x1` and rows `y0..y1` that [`copy_rect`] copies: the
/// rectangle clipped to the canvas, `width` pixels wide and as many rows
/// high as `len` bytes hold.
pub open spec fn copy_bounds(len: int, width: int, rect: Rect) -> (int, int, int, int) {
    let h = len / (width * 4);
    let x0 = if rect.x >= 0 { rect.x as int } else { 0 };
    let y0 = if rect.y >= 0 { rect.y as int } else { 0 };
    let xe = rect.x + rect.width;
    let ye = rect.y + rect.height;
    let x1 = if xe <= width { xe } else { width };
    let y1 = if ye <= h { ye } else { h };
    (x0, y0, if x1 >= 0 { x1 } else { 0 }, if y1 >= 0 { y1 } else { 0 })
}

/// `dst` with the bytes of the pixels in columns `x0..x1` and rows `y0..y1`
/// taken from `src`.
pub open spec fn copied(dst: Seq<u8>, src: Seq<u8>, width: int, x0: int, y0: int, x1: int, y1: int) -> Seq<u8> {
    Seq::new(
        dst.len(),
        |i: int|
            if y0 <= row_of(i, width) < y1 && x0 <= col_of(i, width) < x1 {
                src[i]
            } else {
                dst[i]
            },
    )
}

/// Copies the pixels of `rect`, clipped to the canvas, from `canvas_buf` into
/// `shm_buf`; both are `width` pixels wide.
pub fn copy_rect(shm_buf: &mut [u8], canvas_buf: &[u8], width: i32, rect: Rect)
    requires
        width > 0,
        (width as int) * 4 <= usize::MAX,
        (canvas_buf@.len() as int) / (width * 4) <= i32::MAX,
        i32::MIN <= rect.x + rect.width <= i32::MAX,
        i32::MIN <= rect.y + rect.height <= i32::MAX,
        ({
            let (x0, y0, x1, y1) = copy_bounds(canvas_buf@.len() as int, width as int, rect);
            x0 < x1 && y0 < y1 ==> (y1 - 1) * (width * 4) + x1 * 4 <= old(shm_buf)@.len()
        }),
    ensures
        ({
            let (x0, y0, x1, y1) = copy_bounds(canvas_buf@.len() as int, width as int, rect);
            final(shm_buf)@ == if x0 < x1 && y0 < y1 {
                copied(old(shm_buf)@, canvas_buf@, width as int, x0, y0, x1, y1)
            } else {
                old(shm_buf)@
            }
        }),
{
    let stride = width as usize * 4;
    let w = width;
    let h = (canvas_buf.len() / stride) as i32;

    let x0 = if rect.x >= 0 { rect.x } else { 0 };
    let y0 = if rect.y >= 0 { rect.y } else { 0 };
    let xe = rect.x + rect.width;
    let ye = rect.y + rect.height;
    let x1 = if xe <= w { xe } else { w };
    let y1 = if ye <= h { ye } else { h };
    let x1 = if x1 >= 0 { x1 } else { 0 };
    let y1 = if y1 >= 0 { y1 } else { 0 };

    if x0 >= x1 || y0 >= y1 {
        return;
    }
    let x0 = x0 as usize;
    let y0 = y0 as usize;
    let x1 = x1 as usize;
    let y1 = y1 as usize;
    let shm_len = shm_buf.len();
    let ghost len = shm_len as int;
    let ghost s0 = shm_buf@;
    let ghost wi = width as int;
    proof {
        assert((h as int) * (wi * 4) <= canvas_buf@.len()) by (nonlinear_arith)
            requires
                h == (canvas_buf@.len() as int) / (wi * 4),
                wi > 0,
        ;
    }
    let mut y = y0;
    while y < y1
        invariant
            y0 <= y <= y1,
            x0 < x1 <= wi,
            y1 <= h,
            stride == wi * 4,
            wi > 0,
            (h as int) * (wi * 4) <= canvas_buf@.len(),
            (y1 - 1) * (wi * 4) + x1 * 4 <= len,
            len == shm_len,
            shm_buf@.len() == len,
            s0.len() == len,
            forall|i: int| 0 <= i < len ==> #[trigger] shm_buf@[i] == if y0 <= row_of(i, wi) < y && x0 <= col_of(i, wi) < x1 {
                canvas_buf@[i]
            } else {
                s0[i]
            },
        decreases y1 - y,
    {
        proof {
            assert((y as int) * (wi * 4) + (wi * 4) <= (h as int) * (wi * 4)) by (nonlinear_arith)
                requires
                    y < h,
                    wi > 0,
            ;
            assert((y as int) * (wi * 4) <= (y1 - 1) * (wi * 4)) by (nonlinear_arith)
                requires
                    y <= y1 - 1,
                    wi > 0,
            ;
            assert((y as int) * (stride as int) == (y as int) * (wi * 4));
            assert((y as int) * (wi * 4) + (x1 as int) * 4 <= len);
        }
        let start = y * stride + x0 * 4;
        let end = y * stride + x1 * 4;
        let mut k = start;
        while k < end
            invariant
                y0 <= y < y1,
                x0 < x1 <= wi,
                y1 <= h,
                stride == wi * 4,
                wi > 0,
                start == y * stride + x0 * 4,
                end == y * stride + x1 * 4,
                start <= k <= end,
                end <= len,
                end <= canvas_buf@.len(),
                shm_buf@.len() == len,
                s0.len() == len,
                forall|i: int| 0 <= i < len ==> #[trigger] shm_buf@[i] == if (y0 <= row_of(i, wi) < y && x0 <= col_of(i, wi) < x1) || (start <= i < k) {
                    canvas_buf@[i]
                } else {
                    s0[i]
                },
            decreases end - k,
        {
            shm_buf[k] = canvas_buf[k];
            k = k + 1;
        }
        proof {
            assert forall|i: int| 0 <= i < len implies #[trigger] shm_buf@[i] == if y0 <= row_of(i, wi) < y + 1 && x0 <= col_of(i, wi) < x1 {
                canvas_buf@[i]
            } else {
                s0[i]
            } by {
                let row = row_of(i, wi);
                let col = col_of(i, wi);
                vstd::arithmetic::div_mod::lemma_fundamental_div_mod(i, 4);
                vstd::arithmetic::div_mod::lemma_fundamental_div_mod(i / 4, wi);
                vstd::arithmetic::div_mod::lemma_mod_bound(i / 4, wi);
                vstd::arithmetic::div_mod::lemma_mod_bound(i, 4);
                assert(i == 4 * (wi * row + col) + i % 4);
                assert(4 * (wi * row + col) == row * (wi * 4) + col * 4) by (nonlinear_arith);
                if row < y {
                    assert(row * (wi * 4) + (wi * 4) <= (y as int) * (wi * 4)) by (nonlinear_arith)
                        requires
                            row < y,
                            wi > 0,
                    ;
                } else if row > y {
                    assert((y as int) * (wi * 4) + (wi * 4) <= row * (wi * 4)) by (nonlinear_arith)
                        requires
                            row > y,
                            wi > 0,
                    ;
                }
            }
        }
        y = y + 1;
    }
    proof {
        let expected = copied(s0, canvas_buf@, wi, x0 as int, y0 as int, x1 as int, y1 as int);
        assert(shm_buf@ =~= expected);
    }
}

} // verus!
