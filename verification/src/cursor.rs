//! Pixels of the eraser's cursor image.

use vstd::prelude::*;

verus! {

/// The byte of the buffer at `i` once the RGBA pixels of `rgba` are stored
/// there as ARGB, least significant byte first: red and blue swap places.
pub open spec fn argb_byte(rgba: Seq<u8>, i: int) -> u8 {
    let base = i - i % 4;
    if i % 4 == 0 {
        rgba[base + 2]
    } else if i % 4 == 2 {
        rgba[base]
    } else {
        rgba[i]
    }
}

/// Stores the RGBA pixels of `rgba` into `canvas` as ARGB in little-endian
/// byte order, as many whole pixels as both hold; the other bytes stay.
pub fn convert_rgba(rgba: &[u8], canvas: &mut [u8])
    ensures
        final(canvas)@.len() == old(canvas)@.len(),
        forall|i: int|
            0 <= i < old(canvas)@.len() ==> #[trigger] final(canvas)@[i] == if i < 4 * (rgba@.len() / 4)
                && i < 4 * (old(canvas)@.len() / 4) {
                argb_byte(rgba@, i)
            } else {
                old(canvas)@[i]
            },
{
    let n = rgba.len();
    let pixels = if n / 4 <= canvas.len() / 4 {
        n / 4
    } else {
        canvas.len() / 4
    };
    let ghost s0 = canvas@;
    let mut p: usize = 0;
    while p < pixels
        invariant
            p <= pixels,
            n == rgba@.len(),
            pixels <= rgba@.len() / 4,
            pixels <= s0.len() / 4,
            pixels == rgba@.len() / 4 || pixels == s0.len() / 4,
            canvas@.len() == s0.len(),
            forall|i: int|
                0 <= i < s0.len() ==> #[trigger] canvas@[i] == if i < 4 * p {
                    argb_byte(rgba@, i)
                } else {
                    s0[i]
                },
        decreases pixels - p,
    {
        let k = 4 * p;
        let r = rgba[k];
        let g = rgba[k + 1];
        let b = rgba[k + 2];
        let a = rgba[k + 3];
        canvas[k] = b;
        canvas[k + 1] = g;
        canvas[k + 2] = r;
        canvas[k + 3] = a;
        proof {
            assert forall|i: int| 0 <= i < s0.len() implies #[trigger] canvas@[i] == if i < 4 * (p + 1) {
                argb_byte(rgba@, i)
            } else {
                s0[i]
            } by {
                if k <= i < k + 4 {
                    assert(i % 4 == i - k);
                }
            }
        }
        p = p + 1;
    }
}

/// White at opacity `alpha`, premultiplied, as an ARGB value: every channel
/// equals `alpha`.
pub fn premultiplied_white(alpha: u8) -> (res: u32)
    ensures
        res == (alpha as int) * 0x0101_0101,
{
    let a = alpha as u32;
    a * 0x0101_0101
}

} // verus!
