use bdf_reader::Font;
use waydoodle::bdf::bdf_checked;
use waydoodle::font::{GlyphInfo, GlyphSet};
use waydoodle::help::{
    draw_border, draw_glyph, draw_text, help_lines, le_bytes, render_help, render_help_bdf, render_help_glyphs, text_width, BORDER_COLOR,
    PANEL_BG, TEXT_COLOR_KEY, TITLE_COLOR,
};
use waydoodle::pixels::{fill_rect, set_pixel};

const TRANSPARENT: [u8; 4] = [0, 0, 0, 0];

fn canvas(w: u32, h: u32) -> Vec<u8> {
    vec![0; (w * h * 4) as usize]
}

fn pixel_at(canvas: &[u8], w: u32, x: u32, y: u32) -> [u8; 4] {
    let i = ((y * w + x) * 4) as usize;
    [canvas[i], canvas[i + 1], canvas[i + 2], canvas[i + 3]]
}

/// No glyphs at all: text only moves the pen.
fn no_glyphs() -> GlyphSet {
    GlyphSet::new(16)
}

#[test]
fn render_help_returns_valid_centered_damage_rect() {
    let w = 800;
    let h = 600;
    let mut canvas = canvas(w, h);

    let damage = render_help_glyphs(&mut canvas, w, h, &no_glyphs(), &no_glyphs());

    // Damage rect must be fully within canvas bounds.
    assert!(damage.x >= 0);
    assert!(damage.y >= 0);
    assert!(damage.x + damage.width <= w as i32);
    assert!(damage.y + damage.height <= h as i32);

    // Panel should be smaller than the canvas and centered, so there
    // should be margins on all sides.
    assert!(damage.x > 0, "expected left margin, got x={}", damage.x);
    assert!(damage.y > 0, "expected top margin, got y={}", damage.y);
    assert!(damage.x + damage.width < w as i32, "expected right margin");
    assert!(damage.y + damage.height < h as i32, "expected bottom margin");

    // Rough centering check: the left and right margins should be equal.
    let left_margin = damage.x;
    let right_margin = w as i32 - (damage.x + damage.width);
    assert!((left_margin - right_margin).abs() <= 1);
    let top_margin = damage.y;
    let bottom_margin = h as i32 - (damage.y + damage.height);
    assert!((top_margin - bottom_margin).abs() <= 1);

    // The panel is 280 by 270 pixels.
    assert_eq!((damage.x, damage.y, damage.width, damage.height), (260, 165, 280, 270));
}

#[test]
fn render_help_draws_panel_background_pixels() {
    let w = 800;
    let h = 600;
    let mut canvas = canvas(w, h);

    let damage = render_help_glyphs(&mut canvas, w, h, &no_glyphs(), &no_glyphs());

    let cx = (damage.x + damage.width / 2) as u32;
    let cy = (damage.y + damage.height / 2) as u32;
    let center = pixel_at(&canvas, w, cx, cy);
    assert_ne!(center, TRANSPARENT, "center of help panel should not be transparent");
    assert_eq!(center, le_bytes(PANEL_BG));

    // A pixel well outside the panel should still be transparent.
    assert_eq!(pixel_at(&canvas, w, 0, 0), TRANSPARENT);
}

#[test]
fn render_help_on_tiny_canvas_clamps_to_bounds() {
    let w = 50;
    let h = 30;
    let mut canvas = canvas(w, h);

    let damage = render_help_glyphs(&mut canvas, w, h, &no_glyphs(), &no_glyphs());

    assert!(damage.x >= 0);
    assert!(damage.y >= 0);
    assert!(damage.width > 0);
    assert!(damage.height > 0);
    assert!(damage.x + damage.width <= w as i32);
    assert!(damage.y + damage.height <= h as i32);
}

#[test]
fn render_help_has_border_pixels() {
    let w = 800;
    let h = 600;
    let mut canvas = canvas(w, h);

    let damage = render_help_glyphs(&mut canvas, w, h, &no_glyphs(), &no_glyphs());

    let border = le_bytes(BORDER_COLOR);
    let corner = pixel_at(&canvas, w, damage.x as u32, damage.y as u32);
    assert_eq!(corner, border, "top-left corner should be the border color");

    let br_x = (damage.x + damage.width - 1) as u32;
    let br_y = (damage.y + damage.height - 1) as u32;
    assert_eq!(pixel_at(&canvas, w, br_x, br_y), border, "bottom-right corner should be the border color");
}

#[test]
fn render_help_draws_the_pen_swatches() {
    let w = 800;
    let h = 600;
    let mut canvas = canvas(w, h);
    let damage = render_help_glyphs(&mut canvas, w, h, &no_glyphs(), &no_glyphs());
    // The red swatch of the first line: text starts 20 pixels in, the key
    // column is 32 wide; the first line's top is 50 pixels down and the
    // swatch's 6 below that.
    let x = damage.x as u32 + 20 + 32;
    let y = damage.y as u32 + 50 + 6;
    assert_eq!(pixel_at(&canvas, w, x, y), le_bytes(0xFFFF_0000));
    assert_eq!(pixel_at(&canvas, w, x + 9, y + 9), le_bytes(0xFFFF_0000));
    assert_eq!(pixel_at(&canvas, w, x + 10, y), le_bytes(PANEL_BG));
}

#[test]
fn help_lines_cover_the_keys() {
    let lines = help_lines();
    assert_eq!(lines.len(), 10);
    assert_eq!(lines[0].key, "R");
    assert_eq!(lines[0].color, Some(0xFFFF_0000));
    assert_eq!(lines[8].key, "Esc");
    assert_eq!(lines[8].desc, "Hide overlay");
    assert_eq!(lines[9].key, "F1");
    assert_eq!(lines[9].color, None);
}

#[test]
fn text_width_counts_cells() {
    assert_eq!(text_width(""), 0);
    assert_eq!(text_width("Esc"), 24);
    assert_eq!(text_width("Waydoodle - Keyboard Shortcuts"), 240);
}

#[test]
fn argb_is_stored_least_significant_byte_first() {
    assert_eq!(le_bytes(0xE020_2030), [0x30, 0x20, 0x20, 0xE0]);
}

#[test]
fn set_pixel_writes_only_inside_the_buffer() {
    let mut canvas = canvas(4, 3);
    set_pixel(&mut canvas, 4, 3, 1, 2, [1, 2, 3, 4]);
    assert_eq!(pixel_at(&canvas, 4, 1, 2), [1, 2, 3, 4]);
    let before = canvas.clone();
    set_pixel(&mut canvas, 4, 3, 4, 0, [9, 9, 9, 9]);
    set_pixel(&mut canvas, 4, 3, -1, 0, [9, 9, 9, 9]);
    set_pixel(&mut canvas, 4, 3, 0, 3, [9, 9, 9, 9]);
    assert_eq!(canvas, before);
    // A buffer shorter than its size says.
    let mut short = vec![0u8; 8];
    set_pixel(&mut short, 4, 3, 3, 0, [9, 9, 9, 9]);
    assert_eq!(short, vec![0u8; 8]);
}

#[test]
fn fill_rect_is_clipped() {
    let mut canvas = canvas(4, 4);
    fill_rect(&mut canvas, 4, 4, -1, 2, 3, 5, [7, 7, 7, 7]);
    for y in 0..4 {
        for x in 0..4 {
            let expected = if x < 2 && y >= 2 { [7, 7, 7, 7] } else { TRANSPARENT };
            assert_eq!(pixel_at(&canvas, 4, x, y), expected, "({x}, {y})");
        }
    }
}

#[test]
fn fill_rect_outside_the_buffer_fills_nothing() {
    let mut canvas = canvas(4, 4);
    fill_rect(&mut canvas, 4, 4, -5, 0, 2, 4, [7, 7, 7, 7]);
    fill_rect(&mut canvas, 4, 4, 0, -9, 4, 3, [7, 7, 7, 7]);
    fill_rect(&mut canvas, 4, 4, 6, 1, 2, 2, [7, 7, 7, 7]);
    assert_eq!(canvas, vec![0; 64]);
}

#[test]
fn draw_border_frames_the_rectangle() {
    let mut canvas = canvas(5, 5);
    draw_border(&mut canvas, 5, 5, 1, 1, 3, 3);
    let border = le_bytes(BORDER_COLOR);
    for y in 0..5 {
        for x in 0..5 {
            let on_frame = (1..=3).contains(&x) && (1..=3).contains(&y) && !(x == 2 && y == 2);
            let expected = if on_frame { border } else { TRANSPARENT };
            assert_eq!(pixel_at(&canvas, 5, x, y), expected, "({x}, {y})");
        }
    }
}

fn block_glyph(advance: Option<i32>) -> GlyphInfo {
    // A 2 by 2 glyph with its top-left and bottom-right dots set.
    GlyphInfo { width: 2, height: 2, offset_x: 0, offset_y: 0, dots: vec![true, false, false, true], advance }
}

#[test]
fn draw_glyph_sets_its_dots() {
    let mut canvas = canvas(4, 4);
    draw_glyph(&mut canvas, 4, 4, &block_glyph(None), 1, 1, [5, 5, 5, 5]);
    assert_eq!(pixel_at(&canvas, 4, 1, 1), [5, 5, 5, 5]);
    assert_eq!(pixel_at(&canvas, 4, 2, 2), [5, 5, 5, 5]);
    assert_eq!(pixel_at(&canvas, 4, 2, 1), TRANSPARENT);
    assert_eq!(pixel_at(&canvas, 4, 1, 2), TRANSPARENT);
    // Partly outside the buffer.
    draw_glyph(&mut canvas, 4, 4, &block_glyph(None), 3, -1, [6, 6, 6, 6]);
    assert_eq!(pixel_at(&canvas, 4, 3, 0), TRANSPARENT);
}

#[test]
fn draw_text_advances_the_pen() {
    let mut glyphs = GlyphSet::new(2);
    glyphs.entries.push(('a', Some(block_glyph(Some(3)))));
    let mut canvas = canvas(12, 2);
    // "a" draws at 0, "?" has no glyph and moves a cell, "a" draws at 3 + 8.
    draw_text(&mut canvas, 12, 2, &glyphs, "a?a", 0, 0, le_bytes(TEXT_COLOR_KEY));
    let key = le_bytes(TEXT_COLOR_KEY);
    assert_eq!(pixel_at(&canvas, 12, 0, 0), key);
    assert_eq!(pixel_at(&canvas, 12, 1, 1), key);
    assert_eq!(pixel_at(&canvas, 12, 11, 0), key);
    assert_eq!(pixel_at(&canvas, 12, 3, 0), TRANSPARENT);
    let drawn = canvas.chunks(4).filter(|p| *p != TRANSPARENT).count();
    assert_eq!(drawn, 3, "the second glyph's lower dot falls outside");
}

#[test]
fn glyph_lookup_takes_the_first_entry() {
    let mut glyphs = GlyphSet::new(16);
    glyphs.entries.push(('x', None));
    glyphs.entries.push(('x', Some(block_glyph(None))));
    glyphs.entries.push(('y', Some(block_glyph(Some(5)))));
    assert!(glyphs.lookup('x').is_none());
    assert_eq!(glyphs.lookup('y').unwrap().advance, Some(5));
    assert!(glyphs.lookup('z').is_none());
}

#[test]
fn render_help_draws_the_title_with_the_bold_glyphs() {
    let (w, h) = (800, 600);
    // The title starts with 'W': a single dot, sitting on the baseline.
    let mut bold = GlyphSet::new(16);
    bold.entries.push(('W', Some(GlyphInfo { width: 1, height: 1, offset_x: 0, offset_y: 0, dots: vec![true], advance: None })));
    let mut with_title = canvas(w, h);
    render_help_glyphs(&mut with_title, w, h, &no_glyphs(), &bold);
    // The title is centered at the top of the panel at (260, 165), 20 pixels in.
    assert_eq!(pixel_at(&with_title, w, 280, 200), le_bytes(TITLE_COLOR));
    assert_eq!(pixel_at(&with_title, w, 281, 200), le_bytes(PANEL_BG));
    // The same dot in the regular glyphs does not reach the title.
    let mut without_title = canvas(w, h);
    render_help_glyphs(&mut without_title, w, h, &bold, &no_glyphs());
    assert_eq!(pixel_at(&without_title, w, 280, 200), le_bytes(PANEL_BG));
}

#[test]
fn text_widths_add_up() {
    let (a, b) = ("Esc", "Hide overlay");
    assert_eq!(text_width(&format!("{a}{b}")), text_width(a) + text_width(b));
    assert_eq!(text_width(""), 0);
    assert_eq!(text_width("R"), 8);
}

/// A font with one glyph, a single dot for 'W', the title's first letter.
const ONE_DOT_FONT: &str = "STARTFONT 2.1
FONT one-dot
SIZE 16 75 75
FONTBOUNDINGBOX 8 16 0 -4
CHARS 1
STARTCHAR W
ENCODING 87
DWIDTH 8 0
BBX 1 1 0 0
BITMAP
80
ENDCHAR
ENDFONT
";

#[test]
fn render_help_draws_with_the_glyphs_of_a_font() {
    let font = Font::read(ONE_DOT_FONT.as_bytes()).expect("the font parses");
    let (w, h) = (800, 600);
    let mut canvas = canvas(w, h);
    let damage = render_help(&mut canvas, w, h, &font, &font);
    assert_eq!((damage.x, damage.y, damage.width, damage.height), (260, 165, 280, 270));
    // The 'W' of the title: one dot on the baseline of the first line.
    assert_eq!(pixel_at(&canvas, w, 280, 200), le_bytes(TITLE_COLOR));
    assert_eq!(pixel_at(&canvas, w, 280, 199), le_bytes(PANEL_BG));
    assert_eq!(pixel_at(&canvas, w, 281, 200), le_bytes(PANEL_BG));
}

#[test]
fn render_help_with_an_empty_font_draws_the_panel_only() {
    let empty = ONE_DOT_FONT.replace("CHARS 1", "CHARS 0").replace(
        "STARTCHAR W\nENCODING 87\nDWIDTH 8 0\nBBX 1 1 0 0\nBITMAP\n80\nENDCHAR\n",
        "",
    );
    let font = Font::read(empty.as_bytes()).expect("the font parses");
    let (w, h) = (800, 600);
    let mut canvas = canvas(w, h);
    render_help(&mut canvas, w, h, &font, &font);
    assert_eq!(pixel_at(&canvas, w, 280, 200), le_bytes(PANEL_BG));
}

#[test]
fn render_help_bdf_reads_the_fonts_itself() {
    let (w, h) = (800, 600);
    let mut canvas = canvas(w, h);
    let rect = render_help_bdf(&mut canvas, w, h, ONE_DOT_FONT.as_bytes(), ONE_DOT_FONT.as_bytes());
    let rect = rect.expect("both fonts read");
    assert_eq!((rect.x, rect.y, rect.width, rect.height), (260, 165, 280, 270));
    assert_eq!(pixel_at(&canvas, w, 280, 200), le_bytes(TITLE_COLOR));
}

#[test]
fn render_help_bdf_refuses_what_the_reader_cannot_take() {
    let (w, h) = (100, 100);
    let vertical = ONE_DOT_FONT.replace("DWIDTH 8 0", "DWIDTH1 0 8");
    let no_value = ONE_DOT_FONT.replace("CHARS 1", "STARTPROPERTIES 1\nFOUNDRY\nENDPROPERTIES\nCHARS 1");
    let too_many = ONE_DOT_FONT.replace("CHARS 1", "CHARS 0");
    for text in [vertical.as_str(), no_value.as_str(), too_many.as_str(), "not a font\n"] {
        let mut canvas = canvas(w, h);
        assert_eq!(render_help_bdf(&mut canvas, w, h, text.as_bytes(), ONE_DOT_FONT.as_bytes()), None);
        assert_eq!(canvas, vec![0; (w * h * 4) as usize], "the buffer is left alone");
    }
}

#[test]
fn bdf_check_takes_fonts_with_properties() {
    let with_props = ONE_DOT_FONT.replace(
        "CHARS 1",
        "STARTPROPERTIES 2\nFOUNDRY \"Test\"\nFONT_ASCENT 12\nENDPROPERTIES\nCHARS 1",
    );
    assert!(bdf_checked(with_props.as_bytes()));
    assert!(bdf_checked(ONE_DOT_FONT.as_bytes()));
    assert!(!bdf_checked(b"STARTPROPERTIES 1\nFOUNDRY\n"));
    assert!(!bdf_checked(b"METRICSSET 0\n"));
    assert!(!bdf_checked("caf\u{e9}\n".as_bytes()));
    assert!(!bdf_checked(b"a\r\n"));
}
