//! The on-screen help panel, drawn straight into a buffer of 4-byte pixels
//! with a bitmap font.

use vstd::prelude::*;
use vstd::string::StrSliceExecFns;
use vstd::string::StringSliceAdditionalSpecFns;

use bdf_reader::Font;

use crate::canvas::Rect;
use crate::bdf::{bdf_checked, bdf_readable};
use crate::font::{bdf_box_height, bdf_glyphs, bdf_parses, chars_of, read_font, GlyphInfo, GlyphSet};
use crate::pixels::{
    col_of, fill_bounds, fill_fits, fill_rect, filled, in_block, lemma_pixel_bytes, pixel_drawn, pixel_of, row_of,
    set_pixel, u32_bits_as_i32, u32_to_i32_bits,
};

verus! {

/// Width of a glyph cell, and the advance of a character the font lacks.
pub const GLYPH_W: u32 = 8;

/// Height of a glyph cell.
pub const GLYPH_H: u32 = 16;

/// Whether byte `i` lies in a dot of glyph `g` placed with its top-left
/// corner at (`gx`, `gy`), counting only the dots before row `r`, column `c`
/// in row-major order.
pub open spec fn glyph_hit(g: GlyphInfo, gx: int, gy: int, bw: int, i: int, r: int, c: int) -> bool {
    let col = col_of(i, bw) - gx;
    let row = row_of(i, bw) - gy;
    &&& bw > 0
    &&& i >= 0
    &&& 0 <= col < g.width
    &&& 0 <= row < g.height
    &&& g.dot(col, row)
    &&& (row < r || (row == r && col < c))
}

/// The buffer after the dots of `g` before (`r`, `c`) are set to `color`,
/// each where it lies within the buffer.
pub open spec fn glyph_painted_upto(
    s: Seq<u8>,
    bw: u32,
    bh: u32,
    g: GlyphInfo,
    gx: int,
    gy: int,
    color: Seq<u8>,
    r: int,
    c: int,
) -> Seq<u8> {
    Seq::new(
        s.len(),
        |i: int|
            if glyph_hit(g, gx, gy, bw as int, i, r, c) && pixel_drawn(
                s.len() as int,
                bw,
                bh,
                col_of(i, bw as int),
                row_of(i, bw as int),
            ) {
                color[i % 4]
            } else {
                s[i]
            },
    )
}

/// The buffer after the glyph `g` is drawn in `color` with its top-left
/// corner at (`gx`, `gy`).
pub open spec fn glyph_painted(
    s: Seq<u8>,
    bw: u32,
    bh: u32,
    g: GlyphInfo,
    gx: int,
    gy: int,
    color: Seq<u8>,
) -> Seq<u8> {
    glyph_painted_upto(s, bw, bh, g, gx, gy, color, g.height as int, 0)
}

/// How far the pen moves after `ch`: the glyph's device width, or a cell's
/// width when the glyph has none or the font lacks it.
pub open spec fn char_advance(glyphs: GlyphSet, ch: char) -> int {
    match glyphs.glyph(ch) {
        Some(g) => match g.advance {
            Some(a) => a as int,
            None => GLYPH_W as int,
        },
        None => GLYPH_W as int,
    }
}

/// How far the pen moves over `text`.
pub open spec fn text_advance(glyphs: GlyphSet, text: Seq<char>) -> int
    decreases text.len(),
{
    if text.len() == 0 {
        0
    } else {
        text_advance(glyphs, text.drop_last()) + char_advance(glyphs, text.last())
    }
}

/// The buffer after `text` is written in `color` from pen position
/// (`x`, `y`), `y` being the top of the font's bounding box: each glyph is
/// placed by its offsets within that box.
pub open spec fn text_painted(
    s: Seq<u8>,
    bw: u32,
    bh: u32,
    glyphs: GlyphSet,
    text: Seq<char>,
    x: int,
    y: int,
    color: Seq<u8>,
) -> Seq<u8>
    decreases text.len(),
{
    if text.len() == 0 {
        s
    } else {
        let before = text_painted(s, bw, bh, glyphs, text.drop_last(), x, y, color);
        let pen = x + text_advance(glyphs, text.drop_last());
        match glyphs.glyph(text.last()) {
            Some(g) => glyph_painted(
                before,
                bw,
                bh,
                g,
                pen + g.offset_x,
                y + u32_bits_as_i32(glyphs.box_height as int) - g.offset_y - u32_bits_as_i32(
                    g.height as int,
                ),
                color,
            ),
            None => before,
        }
    }
}

/// Draws the glyph `g` in `color` with its top-left corner at (`gx`, `gy`),
/// clipped to the buffer.
pub fn draw_glyph(canvas: &mut [u8], bw: u32, bh: u32, g: &GlyphInfo, gx: i64, gy: i64, color: [u8; 4])
    requires
        g.wf(),
        gx + g.width <= i64::MAX,
        gy + g.height <= i64::MAX,
        (bw as int) * (bh as int) * 4 + 4 <= usize::MAX,
    ensures
        final(canvas)@ == glyph_painted(old(canvas)@, bw, bh, *g, gx as int, gy as int, color@),
{
    let ghost s0 = canvas@;
    let ghost len = s0.len() as int;
    let n = g.dots.len();
    let mut row: u32 = 0;
    while row < g.height
        invariant
            row <= g.height,
            g.wf(),
            n == g.dots@.len(),
            gx + g.width <= i64::MAX,
            gy + g.height <= i64::MAX,
            (bw as int) * (bh as int) * 4 + 4 <= usize::MAX,
            canvas@.len() == len,
            s0.len() == len,
            canvas@ == glyph_painted_upto(s0, bw, bh, *g, gx as int, gy as int, color@, row as int, 0),
        decreases g.height - row,
    {
        let mut col: u32 = 0;
        while col < g.width
            invariant
                row < g.height,
                col <= g.width,
                g.wf(),
                n == g.dots@.len(),
                gx + g.width <= i64::MAX,
                gy + g.height <= i64::MAX,
                (bw as int) * (bh as int) * 4 + 4 <= usize::MAX,
                canvas@.len() == len,
                s0.len() == len,
                canvas@ == glyph_painted_upto(s0, bw, bh, *g, gx as int, gy as int, color@, row as int, col as int),
            decreases g.width - col,
        {
            proof {
                assert((row as int) * (g.width as int) + (col as int) < (g.width as int) * (g.height as int)) by (nonlinear_arith)
                    requires
                        row < g.height,
                        col < g.width,
                ;
            }
            let idx = row as usize * g.width as usize + col as usize;
            let ghost before = canvas@;
            let px = gx + col as i64;
            let py = gy + row as i64;
            if g.dots[idx] && px >= 0 && py >= 0 && px <= 0x7fff_ffff && py <= 0x7fff_ffff {
                set_pixel(canvas, bw, bh, px as i32, py as i32, color);
            }
            proof {
                let next = glyph_painted_upto(s0, bw, bh, *g, gx as int, gy as int, color@, row as int, col + 1);
                assert forall|i: int| 0 <= i < len implies canvas@[i] == next[i] by {
                    if bw > 0 && 0 <= px < bw && py >= 0 {
                        lemma_pixel_bytes(i, bw as int, py as int, px as int);
                    }
                    assert(before[i] == glyph_painted_upto(s0, bw, bh, *g, gx as int, gy as int, color@, row as int, col as int)[i]);
                }
                assert(canvas@ =~= next);
            }
            col = col + 1;
        }
        proof {
            let a = glyph_painted_upto(s0, bw, bh, *g, gx as int, gy as int, color@, row as int, col as int);
            let b = glyph_painted_upto(s0, bw, bh, *g, gx as int, gy as int, color@, row + 1, 0);
            assert forall|i: int| 0 <= i < len implies a[i] == b[i] by {
                assert(glyph_hit(*g, gx as int, gy as int, bw as int, i, row as int, col as int)
                    == glyph_hit(*g, gx as int, gy as int, bw as int, i, row + 1, 0));
            }
            assert(a =~= b);
        }
        row = row + 1;
    }
}

/// Writes `text` in `color` from pen position (`x`, `y`), `y` being the top
/// of the font's bounding box, with the glyphs of `glyphs`; a character
/// without a glyph only moves the pen by a cell.
pub fn draw_text(
    canvas: &mut [u8],
    bw: u32,
    bh: u32,
    glyphs: &GlyphSet,
    text: &str,
    x: i32,
    y: i32,
    color: [u8; 4],
)
    requires
        glyphs.wf(),
        text@.len() <= 0x7fff_ffff,
        (bw as int) * (bh as int) * 4 + 4 <= usize::MAX,
    ensures
        final(canvas)@ == text_painted(old(canvas)@, bw, bh, *glyphs, text@, x as int, y as int, color@),
{
    broadcast use vstd::string::group_string_axioms;

    let ghost s0 = canvas@;
    let box_h = u32_to_i32_bits(glyphs.box_height) as i64;
    let mut pen: i64 = x as i64;
    proof {
        assert(text@.take(0) =~= Seq::<char>::empty());
    }
    for ch in it: text.chars()
        invariant
            glyphs.wf(),
            text@.len() <= 0x7fff_ffff,
            (bw as int) * (bh as int) * 4 + 4 <= usize::MAX,
            box_h == u32_bits_as_i32(glyphs.box_height as int),
            it.seq() == text@,
            canvas@ == text_painted(s0, bw, bh, *glyphs, text@.take(it.index()), x as int, y as int, color@),
            pen == x + text_advance(*glyphs, text@.take(it.index())),
            -0x8000_0000 * (it.index() + 1) <= pen <= 0x8000_0000 * (it.index() + 1),
    {
        let ghost idx = it.index();
        proof {
            assert(text@.take(idx + 1).drop_last() =~= text@.take(idx));
            assert(text@.take(idx + 1).last() == ch);
        }
        match glyphs.lookup(ch) {
            Some(g) => {
                let gx = pen + g.offset_x as i64;
                let gy = y as i64 + box_h - g.offset_y as i64 - u32_to_i32_bits(g.height) as i64;
                draw_glyph(canvas, bw, bh, g, gx, gy, color);
                let advance: i64 = match g.advance {
                    Some(a) => a as i64,
                    None => GLYPH_W as i64,
                };
                pen = pen + advance;
            },
            None => {
                pen = pen + GLYPH_W as i64;
            },
        }
    }
    proof {
        assert(text@.take(text@.len() as int) =~= text@);
    }
}

/// Height of a line of the panel.
pub const LINE_HEIGHT: u32 = GLYPH_H + 4;

/// Space between the panel's border and its contents.
pub const PADDING: u32 = 20;

/// Side of the swatch drawn beside a pen's key.
pub const COLOR_BOX_SIZE: u32 = 10;

/// Space after a key, and after a swatch.
pub const COLOR_BOX_GAP: u32 = GLYPH_W;

/// The panel's background, as ARGB.
pub const PANEL_BG: u32 = 0xE020_2020;

/// Descriptions, as ARGB.
pub const TEXT_COLOR_NORMAL: u32 = 0xFFDD_DDDD;

/// Keys, as ARGB.
pub const TEXT_COLOR_KEY: u32 = 0xFFFF_CC00;

/// The title, as ARGB.
pub const TITLE_COLOR: u32 = 0xFFFF_FFFF;

/// The panel's border, as ARGB.
pub const BORDER_COLOR: u32 = 0xFF66_6666;

/// The panel's title.
pub const HELP_TITLE: &'static str = "Waydoodle - Keyboard Shortcuts";

/// The bytes of `v`, least significant first.
pub open spec fn le_bytes_of(v: u32) -> Seq<u8> {
    seq![
        (v % 0x100) as u8,
        ((v / 0x100) % 0x100) as u8,
        ((v / 0x1_0000) % 0x100) as u8,
        (v / 0x100_0000) as u8,
    ]
}

/// The bytes of `v`, least significant first: an ARGB color as a pixel of
/// the buffer.
pub fn le_bytes(v: u32) -> (res: [u8; 4])
    ensures
        res@ == le_bytes_of(v),
{
    let res = [(v % 0x100) as u8, ((v / 0x100) % 0x100) as u8, ((v / 0x1_0000) % 0x100) as u8, (v / 0x100_0000) as u8];
    assert(res@ =~= le_bytes_of(v));
    res
}

/// Width in pixels of `text` in cells, one per byte.
pub open spec fn width_of(text: &str) -> int {
    text.spec_bytes().len() * GLYPH_W
}

/// The width of `text` in pixels, one cell per byte.
pub fn text_width(text: &str) -> (res: u32)
    requires
        width_of(text) <= u32::MAX,
    ensures
        res == width_of(text),
{
    text.len() as u32 * GLYPH_W
}

/// Widths add up: a text made of the bytes of `a` followed by those of `b`
/// is as wide as both together, and a text without bytes has no width.
pub proof fn lemma_width_additive(a: &str, b: &str, joined: &str)
    requires
        joined.spec_bytes() == a.spec_bytes() + b.spec_bytes(),
    ensures
        width_of(joined) == width_of(a) + width_of(b),
        a.spec_bytes().len() == 0 ==> width_of(a) == 0,
{
}

/// The buffer after [`fill_rect`] fills the rectangle at (`x`, `y`) of `w`
/// by `h` pixels with `px`.
pub open spec fn rect_filled(s: Seq<u8>, bw: u32, bh: u32, x: i32, y: i32, w: u32, h: u32, px: Seq<u8>) -> Seq<u8> {
    let (x0, y0, x1, y1) = fill_bounds(bw, bh, x, y, w, h);
    filled(s, bw as int, x0, y0, x1, y1, px)
}

/// Whether the arithmetic of [`draw_border`] stays within its integer types.
pub open spec fn border_fits(bw: u32, bh: u32, x: i32, y: i32, w: u32, h: u32) -> bool {
    let bottom = y + u32_bits_as_i32(h as int) - 1;
    let right = x + u32_bits_as_i32(w as int) - 1;
    &&& fill_fits(bw, bh, x, y, w, 1)
    &&& fill_fits(bw, bh, x, y, 1, h)
    &&& i32::MIN <= y + u32_bits_as_i32(h as int) <= i32::MAX
    &&& i32::MIN <= x + u32_bits_as_i32(w as int) <= i32::MAX
    &&& i32::MIN <= bottom <= i32::MAX
    &&& i32::MIN <= right <= i32::MAX
    &&& fill_fits(bw, bh, x, bottom as i32, w, 1)
    &&& fill_fits(bw, bh, right as i32, y, 1, h)
}

/// The buffer after a one-pixel frame is drawn in `px` along the edges of the
/// rectangle at (`x`, `y`) of `w` by `h` pixels: top, bottom, left, right.
pub open spec fn border_painted(s: Seq<u8>, bw: u32, bh: u32, x: i32, y: i32, w: u32, h: u32, px: Seq<u8>) -> Seq<u8> {
    let bottom = (y + u32_bits_as_i32(h as int) - 1) as i32;
    let right = (x + u32_bits_as_i32(w as int) - 1) as i32;
    let s1 = rect_filled(s, bw, bh, x, y, w, 1, px);
    let s2 = rect_filled(s1, bw, bh, x, bottom, w, 1, px);
    let s3 = rect_filled(s2, bw, bh, x, y, 1, h, px);
    rect_filled(s3, bw, bh, right, y, 1, h, px)
}

/// Draws a one-pixel frame in the border color along the edges of the
/// rectangle at (`x`, `y`) of `w` by `h` pixels.
pub fn draw_border(canvas: &mut [u8], bw: u32, bh: u32, x: i32, y: i32, w: u32, h: u32)
    requires
        border_fits(bw, bh, x, y, w, h),
    ensures
        final(canvas)@ == border_painted(old(canvas)@, bw, bh, x, y, w, h, le_bytes_of(BORDER_COLOR)),
{
    let color = le_bytes(BORDER_COLOR);
    fill_rect(canvas, bw, bh, x, y, w, 1, color);
    fill_rect(canvas, bw, bh, x, y + u32_to_i32_bits(h) - 1, w, 1, color);
    fill_rect(canvas, bw, bh, x, y, 1, h, color);
    fill_rect(canvas, bw, bh, x + u32_to_i32_bits(w) - 1, y, 1, h, color);
}

/// One line of the panel: a key, what it does, and for a pen's key the
/// pen's color as ARGB, shown in a swatch.
#[derive(Clone, Copy)]
pub struct HelpLine {
    pub key: &'static str,
    pub desc: &'static str,
    pub color: Option<u32>,
}

/// The lines of the panel, in order.
pub open spec fn spec_help_lines() -> Seq<HelpLine> {
    seq![
        HelpLine { key: "R", desc: "Red pen", color: Some(0xFFFF_0000u32) },
        HelpLine { key: "G", desc: "Green pen", color: Some(0xFF00_FF00u32) },
        HelpLine { key: "B", desc: "Blue pen", color: Some(0xFF00_00FFu32) },
        HelpLine { key: "Y", desc: "Yellow pen", color: Some(0xFFFF_FF00u32) },
        HelpLine { key: "M", desc: "Magenta pen", color: Some(0xFFFF_00FFu32) },
        HelpLine { key: "N", desc: "Cyan pen", color: Some(0xFF00_FFFFu32) },
        HelpLine { key: "E", desc: "Eraser", color: None },
        HelpLine { key: "C", desc: "Clear screen", color: None },
        HelpLine { key: "Esc", desc: "Hide overlay", color: None },
        HelpLine { key: "F1", desc: "Toggle this help", color: None },
    ]
}

/// The lines of the panel, in order.
pub fn help_lines() -> (res: Vec<HelpLine>)
    ensures
        res@ == spec_help_lines(),
{
    let res = vec![
        HelpLine { key: "R", desc: "Red pen", color: Some(0xFFFF_0000u32) },
        HelpLine { key: "G", desc: "Green pen", color: Some(0xFF00_FF00u32) },
        HelpLine { key: "B", desc: "Blue pen", color: Some(0xFF00_00FFu32) },
        HelpLine { key: "Y", desc: "Yellow pen", color: Some(0xFFFF_FF00u32) },
        HelpLine { key: "M", desc: "Magenta pen", color: Some(0xFFFF_00FFu32) },
        HelpLine { key: "N", desc: "Cyan pen", color: Some(0xFF00_FFFFu32) },
        HelpLine { key: "E", desc: "Eraser", color: None },
        HelpLine { key: "C", desc: "Clear screen", color: None },
        HelpLine { key: "Esc", desc: "Hide overlay", color: None },
        HelpLine { key: "F1", desc: "Toggle this help", color: None },
    ];
    assert(res@ =~= spec_help_lines());
    res
}

/// The widest key of `lines`, in pixels.
pub open spec fn max_key_width(lines: Seq<HelpLine>) -> int
    decreases lines.len(),
{
    if lines.len() == 0 {
        0
    } else {
        let m = max_key_width(lines.drop_last());
        let w = width_of(lines.last().key);
        if w > m {
            w
        } else {
            m
        }
    }
}

/// The widest description of `lines`, in pixels.
pub open spec fn max_desc_width(lines: Seq<HelpLine>) -> int
    decreases lines.len(),
{
    if lines.len() == 0 {
        0
    } else {
        let m = max_desc_width(lines.drop_last());
        let w = width_of(lines.last().desc);
        if w > m {
            w
        } else {
            m
        }
    }
}

/// Width of the column of keys, with the gap after them.
pub open spec fn key_column_width() -> int {
    max_key_width(spec_help_lines()) + COLOR_BOX_GAP
}

/// Width of the column of swatches, with the gap after them.
pub open spec fn swatch_column_width() -> int {
    COLOR_BOX_SIZE + COLOR_BOX_GAP
}

/// Width of the panel: its contents or its title, whichever is wider, and
/// the padding on both sides.
pub open spec fn panel_width() -> int {
    let content = key_column_width() + swatch_column_width() + max_desc_width(spec_help_lines());
    let inner = if content >= width_of(HELP_TITLE) {
        content
    } else {
        width_of(HELP_TITLE)
    };
    inner + 2 * PADDING
}

/// Height of the panel: the title, half a line of space, one line per entry,
/// and the padding above and below.
pub open spec fn panel_height() -> int {
    LINE_HEIGHT + LINE_HEIGHT / 2 + spec_help_lines().len() * LINE_HEIGHT + 2 * PADDING
}

proof fn lemma_ascii_width(s: &str)
    requires
        vstd::string::is_ascii(s),
    ensures
        width_of(s) == s@.len() * GLYPH_W,
{
    broadcast use vstd::string::group_string_axioms;

}

/// The sizes that the layout of the panel works with: the panel is 280 by
/// 270 pixels.
pub proof fn lemma_help_layout()
    ensures
        width_of(HELP_TITLE) == 240,
        HELP_TITLE@.len() == 30,
        key_column_width() == 32,
        max_desc_width(spec_help_lines()) == 128,
        panel_width() == 280,
        panel_height() == 270,
        spec_help_lines().len() == 10,
        forall|i: int|
            0 <= i < spec_help_lines().len() ==> width_of((#[trigger] spec_help_lines()[i]).key) <= 24
                && spec_help_lines()[i].key@.len() <= 3 && width_of(spec_help_lines()[i].desc) <= 128
                && spec_help_lines()[i].desc@.len() <= 16,
{
    reveal_strlit("Waydoodle - Keyboard Shortcuts");
    lemma_ascii_width(HELP_TITLE);
    reveal_strlit("R");
    reveal_strlit("Red pen");
    lemma_ascii_width("R");
    lemma_ascii_width("Red pen");
    reveal_strlit("G");
    reveal_strlit("Green pen");
    lemma_ascii_width("G");
    lemma_ascii_width("Green pen");
    reveal_strlit("B");
    reveal_strlit("Blue pen");
    lemma_ascii_width("B");
    lemma_ascii_width("Blue pen");
    reveal_strlit("Y");
    reveal_strlit("Yellow pen");
    lemma_ascii_width("Y");
    lemma_ascii_width("Yellow pen");
    reveal_strlit("M");
    reveal_strlit("Magenta pen");
    lemma_ascii_width("M");
    lemma_ascii_width("Magenta pen");
    reveal_strlit("N");
    reveal_strlit("Cyan pen");
    lemma_ascii_width("N");
    lemma_ascii_width("Cyan pen");
    reveal_strlit("E");
    reveal_strlit("Eraser");
    lemma_ascii_width("E");
    lemma_ascii_width("Eraser");
    reveal_strlit("C");
    reveal_strlit("Clear screen");
    lemma_ascii_width("C");
    lemma_ascii_width("Clear screen");
    reveal_strlit("Esc");
    reveal_strlit("Hide overlay");
    lemma_ascii_width("Esc");
    lemma_ascii_width("Hide overlay");
    reveal_strlit("F1");
    reveal_strlit("Toggle this help");
    lemma_ascii_width("F1");
    lemma_ascii_width("Toggle this help");
    reveal_with_fuel(max_key_width, 11);
    reveal_with_fuel(max_desc_width, 11);
    let lines = spec_help_lines();
    assert forall|i: int|
        0 <= i < lines.len() implies width_of((#[trigger] lines[i]).key) <= 24 && lines[i].key@.len() <= 3
            && width_of(lines[i].desc) <= 128 && lines[i].desc@.len() <= 16 by {}
}

/// The buffer after one line of the panel is drawn with its text starting at
/// `text_x` and its top at `row_y`: the key right-aligned in its column, the
/// swatch of a pen's color, and the description.
pub open spec fn line_painted(
    s: Seq<u8>,
    bw: u32,
    bh: u32,
    regular: GlyphSet,
    bold: GlyphSet,
    line: HelpLine,
    text_x: int,
    row_y: int,
) -> Seq<u8> {
    let key_x = text_x + key_column_width() - width_of(line.key) - COLOR_BOX_GAP;
    let keyed = text_painted(s, bw, bh, bold, line.key@, key_x, row_y, le_bytes_of(TEXT_COLOR_KEY));
    let boxed = match line.color {
        Some(argb) => rect_filled(
            keyed,
            bw,
            bh,
            (text_x + key_column_width()) as i32,
            (row_y + GLYPH_H - COLOR_BOX_SIZE) as i32,
            COLOR_BOX_SIZE,
            COLOR_BOX_SIZE,
            le_bytes_of(argb),
        ),
        None => keyed,
    };
    let desc_x = text_x + key_column_width() + swatch_column_width();
    text_painted(boxed, bw, bh, regular, line.desc@, desc_x, row_y, le_bytes_of(TEXT_COLOR_NORMAL))
}

/// The buffer after `lines` are drawn one below the other, the first with
/// its top at `row_y`.
pub open spec fn lines_painted(
    s: Seq<u8>,
    bw: u32,
    bh: u32,
    regular: GlyphSet,
    bold: GlyphSet,
    lines: Seq<HelpLine>,
    text_x: int,
    row_y: int,
) -> Seq<u8>
    decreases lines.len(),
{
    if lines.len() == 0 {
        s
    } else {
        let before = lines_painted(s, bw, bh, regular, bold, lines.drop_last(), text_x, row_y);
        line_painted(
            before,
            bw,
            bh,
            regular,
            bold,
            lines.last(),
            text_x,
            row_y + LINE_HEIGHT * (lines.len() - 1),
        )
    }
}

/// Where a panel of `size` pixels starts to be centered in `b` pixels, or 0
/// when it does not fit.
pub open spec fn help_origin(b: u32, size: int) -> int {
    (if b >= size {
        b - size
    } else {
        0
    }) / 2
}

/// The buffer after the help panel is drawn, centered: the background, the
/// border, the title in bold, then the lines, keys in bold.
pub open spec fn help_painted(s: Seq<u8>, bw: u32, bh: u32, regular: GlyphSet, bold: GlyphSet) -> Seq<u8> {
    let pw = panel_width();
    let ph = panel_height();
    let x = help_origin(bw, pw);
    let y = help_origin(bh, ph);
    let panel = rect_filled(s, bw, bh, x as i32, y as i32, pw as u32, ph as u32, le_bytes_of(PANEL_BG));
    let framed = border_painted(panel, bw, bh, x as i32, y as i32, pw as u32, ph as u32, le_bytes_of(BORDER_COLOR));
    let title_x = x + (pw - width_of(HELP_TITLE)) / 2;
    let titled = text_painted(framed, bw, bh, bold, HELP_TITLE@, title_x, y + PADDING, le_bytes_of(TITLE_COLOR));
    lines_painted(
        titled,
        bw,
        bh,
        regular,
        bold,
        spec_help_lines(),
        x + PADDING,
        y + PADDING + LINE_HEIGHT + LINE_HEIGHT / 2,
    )
}

/// The part of the buffer that the panel covers.
pub open spec fn help_rect(bw: u32, bh: u32) -> Rect {
    let pw = panel_width();
    let ph = panel_height();
    let x = help_origin(bw, pw);
    let y = help_origin(bh, ph);
    Rect {
        x: x as i32,
        y: y as i32,
        width: (if pw <= bw - x {
            pw
        } else {
            bw - x
        }) as i32,
        height: (if ph <= bh - y {
            ph
        } else {
            bh - y
        }) as i32,
    }
}

/// Draws one line of the panel with its text starting at `text_x` and its
/// top at `row_y`.
fn draw_help_line(
    canvas: &mut [u8],
    bw: u32,
    bh: u32,
    regular: &GlyphSet,
    bold: &GlyphSet,
    line: HelpLine,
    text_x: i32,
    row_y: i32,
    key_col_width: u32,
    color_col_width: u32,
)
    requires
        regular.wf(),
        bold.wf(),
        (bw as int) * (bh as int) * 4 + 4 <= usize::MAX,
        width_of(line.key) <= 24,
        line.key@.len() <= 3,
        line.desc@.len() <= 16,
        key_col_width == key_column_width(),
        key_column_width() == 32,
        color_col_width == swatch_column_width(),
        0 <= text_x <= 0x5000_0000,
        0 <= row_y <= 0x5000_0000,
    ensures
        final(canvas)@ == line_painted(old(canvas)@, bw, bh, *regular, *bold, line, text_x as int, row_y as int),
{
    let key_offset = key_col_width as i32 - text_width(line.key) as i32 - COLOR_BOX_GAP as i32;
    draw_text(canvas, bw, bh, bold, line.key, text_x + key_offset, row_y, le_bytes(TEXT_COLOR_KEY));
    let desc_x = text_x + key_col_width as i32 + color_col_width as i32;
    if let Some(argb) = line.color {
        let box_x = text_x + key_col_width as i32;
        let box_y = row_y + GLYPH_H as i32 - COLOR_BOX_SIZE as i32;
        fill_rect(canvas, bw, bh, box_x, box_y, COLOR_BOX_SIZE, COLOR_BOX_SIZE, le_bytes(argb));
    }
    draw_text(canvas, bw, bh, regular, line.desc, desc_x, row_y, le_bytes(TEXT_COLOR_NORMAL));
}

/// Draws the help panel centered in the buffer with the glyphs of `regular`
/// and `bold`, and returns the part of the buffer it covers.
#[verifier::rlimit(30)]
pub fn render_help_glyphs(canvas: &mut [u8], bw: u32, bh: u32, regular: &GlyphSet, bold: &GlyphSet) -> (res: Rect)
    requires
        regular.wf(),
        bold.wf(),
        bw <= i32::MAX,
        bh <= i32::MAX,
        (bw as int) * (bh as int) * 4 + 4 <= usize::MAX,
    ensures
        final(canvas)@ == help_painted(old(canvas)@, bw, bh, *regular, *bold),
        res == help_rect(bw, bh),
{
    proof {
        lemma_help_layout();
    }
    let ghost s0 = canvas@;
    let lines = help_lines();

    let mut max_key: u32 = 0;
    let mut i: usize = 0;
    assert(lines@.take(0) =~= Seq::<HelpLine>::empty());
    while i < lines.len()
        invariant
            i <= lines@.len(),
            lines@ == spec_help_lines(),
            spec_help_lines().len() == 10,
            forall|j: int|
                0 <= j < spec_help_lines().len() ==> width_of((#[trigger] spec_help_lines()[j]).key) <= 24,
            max_key == max_key_width(lines@.take(i as int)),
            max_key <= 24,
        decreases lines@.len() - i,
    {
        assert(lines@.take(i + 1).drop_last() =~= lines@.take(i as int));
        let w = text_width(lines[i].key);
        if w > max_key {
            max_key = w;
        }
        i = i + 1;
    }
    assert(lines@.take(10) =~= lines@);
    let key_col_width = max_key + COLOR_BOX_GAP;

    let mut max_desc: u32 = 0;
    let mut i: usize = 0;
    assert(lines@.take(0) =~= Seq::<HelpLine>::empty());
    while i < lines.len()
        invariant
            i <= lines@.len(),
            lines@ == spec_help_lines(),
            spec_help_lines().len() == 10,
            forall|j: int|
                0 <= j < spec_help_lines().len() ==> width_of((#[trigger] spec_help_lines()[j]).desc) <= 128,
            max_desc == max_desc_width(lines@.take(i as int)),
            max_desc <= 128,
        decreases lines@.len() - i,
    {
        assert(lines@.take(i + 1).drop_last() =~= lines@.take(i as int));
        let w = text_width(lines[i].desc);
        if w > max_desc {
            max_desc = w;
        }
        i = i + 1;
    }
    let desc_col_width = max_desc;

    let color_col_width = COLOR_BOX_SIZE + COLOR_BOX_GAP;
    let content_width = key_col_width + color_col_width + desc_col_width;
    let title_width = text_width(HELP_TITLE);
    let inner_width = if content_width >= title_width {
        content_width
    } else {
        title_width
    };
    let num_lines = lines.len() as u32;
    let inner_height = LINE_HEIGHT + LINE_HEIGHT / 2 + num_lines * LINE_HEIGHT;
    let panel_w = inner_width + PADDING * 2;
    let panel_h = inner_height + PADDING * 2;

    let panel_x = ((if bw >= panel_w { bw - panel_w } else { 0 }) / 2) as i32;
    let panel_y = ((if bh >= panel_h { bh - panel_h } else { 0 }) / 2) as i32;

    fill_rect(canvas, bw, bh, panel_x, panel_y, panel_w, panel_h, le_bytes(PANEL_BG));
    draw_border(canvas, bw, bh, panel_x, panel_y, panel_w, panel_h);

    let text_x = panel_x + PADDING as i32;
    let mut row_y = panel_y + PADDING as i32;

    let title_x = panel_x + ((panel_w - title_width) / 2) as i32;
    draw_text(canvas, bw, bh, bold, HELP_TITLE, title_x, row_y, le_bytes(TITLE_COLOR));
    row_y = row_y + LINE_HEIGHT as i32 + LINE_HEIGHT as i32 / 2;

    let ghost titled = canvas@;
    let ghost first_row = row_y as int;
    let mut i: usize = 0;
    assert(lines@.take(0) =~= Seq::<HelpLine>::empty());
    while i < lines.len()
        invariant
            i <= lines@.len(),
            lines@ == spec_help_lines(),
            spec_help_lines().len() == 10,
            forall|j: int|
                0 <= j < spec_help_lines().len() ==> width_of((#[trigger] spec_help_lines()[j]).key) <= 24
                    && spec_help_lines()[j].key@.len() <= 3 && width_of(spec_help_lines()[j].desc) <= 128
                    && spec_help_lines()[j].desc@.len() <= 16,
            regular.wf(),
            bold.wf(),
            (bw as int) * (bh as int) * 4 + 4 <= usize::MAX,
            key_col_width == key_column_width(),
            key_column_width() == 32,
            color_col_width == swatch_column_width(),
            0 <= panel_x <= 0x4000_0000,
            0 <= panel_y <= 0x4000_0000,
            text_x == panel_x + PADDING,
            first_row == panel_y + PADDING + LINE_HEIGHT + LINE_HEIGHT / 2,
            row_y == first_row + 20 * i,
            LINE_HEIGHT == 20,
            canvas@ == lines_painted(titled, bw, bh, *regular, *bold, lines@.take(i as int), text_x as int, first_row),
        decreases lines@.len() - i,
    {
        assert(lines@.take(i + 1).drop_last() =~= lines@.take(i as int));
        let line = lines[i];
        assert(line == spec_help_lines()[i as int]);
        draw_help_line(canvas, bw, bh, regular, bold, line, text_x, row_y, key_col_width, color_col_width);
        row_y = row_y + LINE_HEIGHT as i32;
        i = i + 1;
    }
    assert(lines@.take(10) =~= lines@);

    let width_left = bw as i32 - panel_x;
    let height_left = bh as i32 - panel_y;
    Rect {
        x: panel_x,
        y: panel_y,
        width: if (panel_w as i32) <= width_left { panel_w as i32 } else { width_left },
        height: if (panel_h as i32) <= height_left { panel_h as i32 } else { height_left },
    }
}

/// The texts drawn in bold: the title, then the keys.
pub open spec fn bold_texts() -> Seq<&'static str> {
    seq![HELP_TITLE] + spec_help_lines().map_values(|l: HelpLine| l.key)
}

/// The texts drawn in the regular font: the descriptions.
pub open spec fn regular_texts() -> Seq<&'static str> {
    spec_help_lines().map_values(|l: HelpLine| l.desc)
}

/// Draws the help panel centered in the buffer, the title and keys with the
/// glyphs of `bold`, the descriptions with those of `regular`, and returns the
/// part of the buffer it covers. The glyphs are whatever the fonts hold for
/// the characters of those texts.
pub fn render_help(canvas: &mut [u8], bw: u32, bh: u32, regular: &Font, bold: &Font) -> (res: Rect)
    requires
        bw <= i32::MAX,
        bh <= i32::MAX,
        (bw as int) * (bh as int) * 4 + 4 <= usize::MAX,
    ensures
        res == help_rect(bw, bh),
        exists|r: GlyphSet, b: GlyphSet|
            {
                &&& r.wf()
                &&& b.wf()
                &&& r.from_font(*regular)
                &&& b.from_font(*bold)
                &&& r.entries@.map_values(|e: (char, Option<GlyphInfo>)| e.0) == chars_of(regular_texts())
                &&& b.entries@.map_values(|e: (char, Option<GlyphInfo>)| e.0) == chars_of(bold_texts())
                &&& final(canvas)@ == #[trigger] help_painted(old(canvas)@, bw, bh, r, b)
            },
{
    let lines = help_lines();
    let mut regular_texts: Vec<&str> = Vec::new();
    let mut bold_texts: Vec<&str> = Vec::new();
    bold_texts.push(HELP_TITLE);
    let mut i: usize = 0;
    while i < lines.len()
        invariant
            i <= lines@.len(),
            lines@ == spec_help_lines(),
            bold_texts@ == seq![HELP_TITLE] + spec_help_lines().take(i as int).map_values(|l: HelpLine| l.key),
            regular_texts@ == spec_help_lines().take(i as int).map_values(|l: HelpLine| l.desc),
        decreases lines@.len() - i,
    {
        bold_texts.push(lines[i].key);
        regular_texts.push(lines[i].desc);
        proof {
            assert(spec_help_lines().take(i + 1).map_values(|l: HelpLine| l.key) =~= spec_help_lines().take(
                i as int,
            ).map_values(|l: HelpLine| l.key).push(lines@[i as int].key));
            assert(spec_help_lines().take(i + 1).map_values(|l: HelpLine| l.desc) =~= spec_help_lines().take(
                i as int,
            ).map_values(|l: HelpLine| l.desc).push(lines@[i as int].desc));
        }
        i = i + 1;
    }
    assert(spec_help_lines().take(lines@.len() as int) =~= spec_help_lines());
    let regular_glyphs = GlyphSet::read(regular, &regular_texts);
    let bold_glyphs = GlyphSet::read(bold, &bold_texts);
    render_help_glyphs(canvas, bw, bh, &regular_glyphs, &bold_glyphs)
}

/// Draws the help panel as [`render_help`] does, with the fonts read from
/// the BDF texts `regular_bdf` and `bold_bdf`, and returns the part of the
/// buffer it covers; or leaves the buffer alone and returns `None` when a
/// text is not one that the font reader is handed (see [`bdf_readable`]) or
/// holds no font.
pub fn render_help_bdf(canvas: &mut [u8], bw: u32, bh: u32, regular_bdf: &[u8], bold_bdf: &[u8]) -> (res: Option<Rect>)
    requires
        bw <= i32::MAX,
        bh <= i32::MAX,
        (bw as int) * (bh as int) * 4 + 4 <= usize::MAX,
    ensures
        res is Some <==> bdf_readable(regular_bdf@) && bdf_readable(bold_bdf@) && bdf_parses(regular_bdf@)
            && bdf_parses(bold_bdf@),
        res is None ==> final(canvas)@ == old(canvas)@,
        res matches Some(rect) ==> rect == help_rect(bw, bh),
        res is Some ==> exists|r: GlyphSet, b: GlyphSet|
            {
                &&& r.wf()
                &&& b.wf()
                &&& r.read_from(bdf_box_height(regular_bdf@), bdf_glyphs(regular_bdf@))
                &&& b.read_from(bdf_box_height(bold_bdf@), bdf_glyphs(bold_bdf@))
                &&& r.entries@.map_values(|e: (char, Option<GlyphInfo>)| e.0) == chars_of(regular_texts())
                &&& b.entries@.map_values(|e: (char, Option<GlyphInfo>)| e.0) == chars_of(bold_texts())
                &&& final(canvas)@ == #[trigger] help_painted(old(canvas)@, bw, bh, r, b)
            },
{
    if !bdf_checked(regular_bdf) || !bdf_checked(bold_bdf) {
        return None;
    }
    let regular = match read_font(regular_bdf) {
        Some(f) => f,
        None => {
            return None;
        },
    };
    let bold = match read_font(bold_bdf) {
        Some(f) => f,
        None => {
            return None;
        },
    };
    let rect = render_help(canvas, bw, bh, &regular, &bold);
    Some(rect)
}

/// Whether every glyph of `glyphs` is placed at or after the pen and moves
/// the pen forward, as the glyphs of left-to-right fonts do.
pub open spec fn forward_glyphs(glyphs: GlyphSet) -> bool {
    forall|ch: char|
        #[trigger] glyphs.glyph(ch) matches Some(g) ==> g.offset_x >= 0 && (g.advance matches Some(a) ==> a >= 0)
}

proof fn lemma_text_advance_forward(glyphs: GlyphSet, text: Seq<char>)
    requires
        forward_glyphs(glyphs),
    ensures
        text_advance(glyphs, text) >= 0,
    decreases text.len(),
{
    if text.len() > 0 {
        lemma_text_advance_forward(glyphs, text.drop_last());
        let _ = glyphs.glyph(text.last());
    }
}

/// Writing text keeps the buffer's length, and with forward glyphs it
/// leaves every pixel left of the pen's start as it was.
pub proof fn lemma_text_keeps_left(
    s: Seq<u8>,
    bw: u32,
    bh: u32,
    glyphs: GlyphSet,
    text: Seq<char>,
    x: int,
    y: int,
    color: Seq<u8>,
    i: int,
)
    ensures
        text_painted(s, bw, bh, glyphs, text, x, y, color).len() == s.len(),
        forward_glyphs(glyphs) && bw > 0 && 0 <= i < s.len() && col_of(i, bw as int) < x ==> text_painted(
            s,
            bw,
            bh,
            glyphs,
            text,
            x,
            y,
            color,
        )[i] == s[i],
    decreases text.len(),
{
    if text.len() > 0 {
        lemma_text_keeps_left(s, bw, bh, glyphs, text.drop_last(), x, y, color, i);
        if forward_glyphs(glyphs) {
            lemma_text_advance_forward(glyphs, text.drop_last());
            let _ = glyphs.glyph(text.last());
        }
    }
}

/// A pen's swatch stays in the pen's color: every pixel of the swatch box of
/// a help line that lies in the buffer shows the pen's color once the line
/// is drawn, since the description starts after the swatch and its gap, and
/// the key was drawn before it.
pub proof fn lemma_swatch_stays_visible(
    s: Seq<u8>,
    bw: u32,
    bh: u32,
    regular: GlyphSet,
    bold: GlyphSet,
    line: HelpLine,
    text_x: int,
    row_y: int,
    i: int,
)
    requires
        line.color is Some,
        forward_glyphs(regular),
        bw > 0,
        0 <= text_x + key_column_width() <= i32::MAX,
        0 <= row_y + GLYPH_H - COLOR_BOX_SIZE <= i32::MAX,
        0 <= i < s.len(),
        4 * pixel_of(i) + 4 <= s.len(),
        text_x + key_column_width() <= col_of(i, bw as int) < text_x + key_column_width() + COLOR_BOX_SIZE,
        row_y + GLYPH_H - COLOR_BOX_SIZE <= row_of(i, bw as int) < row_y + GLYPH_H,
        row_of(i, bw as int) < bh,
    ensures
        line_painted(s, bw, bh, regular, bold, line, text_x, row_y)[i] == le_bytes_of(line.color->0)[i % 4],
{
    let key_x = text_x + key_column_width() - width_of(line.key) - COLOR_BOX_GAP;
    let keyed = text_painted(s, bw, bh, bold, line.key@, key_x, row_y, le_bytes_of(TEXT_COLOR_KEY));
    lemma_text_keeps_left(s, bw, bh, bold, line.key@, key_x, row_y, le_bytes_of(TEXT_COLOR_KEY), i);
    let sx = text_x + key_column_width();
    let sy = row_y + GLYPH_H - COLOR_BOX_SIZE;
    let boxed = rect_filled(keyed, bw, bh, sx as i32, sy as i32, COLOR_BOX_SIZE, COLOR_BOX_SIZE, le_bytes_of(line.color->0));
    let (x0, y0, x1, y1) = fill_bounds(bw, bh, sx as i32, sy as i32, COLOR_BOX_SIZE, COLOR_BOX_SIZE);
    assert(col_of(i, bw as int) < bw) by {
        vstd::arithmetic::div_mod::lemma_mod_bound(i / 4, bw as int);
    }
    assert(in_block(i, bw as int, x0, y0, x1, y1, keyed.len() as int));
    assert(boxed[i] == le_bytes_of(line.color->0)[i % 4]);
    let desc_x = sx + swatch_column_width();
    lemma_text_keeps_left(boxed, bw, bh, regular, line.desc@, desc_x, row_y, le_bytes_of(TEXT_COLOR_NORMAL), i);
}

} // verus!
