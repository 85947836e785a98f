use waydoodle::canvas::Rect;
use waydoodle::cursor::{convert_rgba, premultiplied_white};
use waydoodle::drawing::{
    brush_pixel, circle_dirty_rect, color_to_argb_le, fill_circle, set_pixel, stroke_dirty_rect,
};
use waydoodle::model::{BrushStyle, Color, Point};
use waydoodle::present::Presenter;
use waydoodle::render::copy_rect;

fn pixel_at(canvas: &[u8], w: u32, x: u32, y: u32) -> [u8; 4] {
    let i = ((y * w + x) * 4) as usize;
    [canvas[i], canvas[i + 1], canvas[i + 2], canvas[i + 3]]
}

#[test]
fn pen_colors_as_pixels() {
    assert_eq!(color_to_argb_le(Color::Red), [0x00, 0x00, 0xFF, 0xFF]);
    assert_eq!(color_to_argb_le(Color::Green), [0x00, 0xFF, 0x00, 0xFF]);
    assert_eq!(color_to_argb_le(Color::Blue), [0xFF, 0x00, 0x00, 0xFF]);
    assert_eq!(color_to_argb_le(Color::Yellow), [0x00, 0xFF, 0xFF, 0xFF]);
    assert_eq!(brush_pixel(BrushStyle::Draw(Color::Blue)), [0xFF, 0x00, 0x00, 0xFF]);
    assert_eq!(brush_pixel(BrushStyle::Erase), [0, 0, 0, 0]);
}

#[test]
fn view_set_pixel_skips_outside_pixels() {
    let mut canvas = vec![0u8; 2 * 2 * 4];
    set_pixel(&mut canvas, 2, 2, 1, 1, [1, 2, 3, 4]);
    set_pixel(&mut canvas, 2, 2, 2, 0, [9, 9, 9, 9]);
    set_pixel(&mut canvas, 2, 2, 0, -1, [9, 9, 9, 9]);
    assert_eq!(pixel_at(&canvas, 2, 1, 1), [1, 2, 3, 4]);
    assert_eq!(canvas.iter().filter(|b| **b == 9).count(), 0);
}

fn count_set(canvas: &[u8]) -> usize {
    canvas.chunks(4).filter(|p| p[3] != 0).count()
}

#[test]
fn circle_center_pixel_is_filled() {
    let mut canvas = vec![0u8; 20 * 20 * 4];
    let px = color_to_argb_le(Color::Red);
    fill_circle(&mut canvas, 20, 20, Point { x: 10 * 256, y: 10 * 256 }, 3 * 256, px);
    assert_eq!(pixel_at(&canvas, 20, 10, 10), px);
    // Cardinal offsets within the radius are filled, those beyond are not.
    assert_eq!(pixel_at(&canvas, 20, 13, 10), px);
    assert_eq!(pixel_at(&canvas, 20, 10, 7), px);
    assert_eq!(pixel_at(&canvas, 20, 14, 10), [0, 0, 0, 0]);
    // The corners of the bounding square are not.
    assert_eq!(pixel_at(&canvas, 20, 13, 13), [0, 0, 0, 0]);
    // 29 pixel centers lie within 3 pixels of a pixel center.
    assert_eq!(count_set(&canvas), 29);
}

#[test]
fn pen_dot_covers_nine_pixels() {
    // Radius 1.5 around a pixel center: the 3 by 3 block.
    let mut canvas = vec![0u8; 8 * 8 * 4];
    fill_circle(&mut canvas, 8, 8, Point { x: 4 * 256, y: 4 * 256 }, 384, [0, 0, 255, 255]);
    assert_eq!(count_set(&canvas), 9);
    assert_eq!(pixel_at(&canvas, 8, 3, 3), [0, 0, 255, 255]);
    assert_eq!(pixel_at(&canvas, 8, 5, 5), [0, 0, 255, 255]);
}

#[test]
fn circle_is_clipped_at_the_edge() {
    let mut canvas = vec![0u8; 10 * 10 * 4];
    fill_circle(&mut canvas, 10, 10, Point { x: 0, y: 0 }, 2 * 256, [1, 1, 1, 1]);
    // The quarter within the buffer: 6 of the 13 pixels.
    assert_eq!(count_set(&canvas), 6);
}

#[test]
fn copy_rect_copies_the_clipped_rows() {
    let width = 4;
    let canvas: Vec<u8> = (0..(4 * 3 * 4)).map(|i| i as u8).collect();
    let mut shm = vec![0u8; canvas.len()];
    copy_rect(&mut shm, &canvas, width, Rect::new(2, 1, 5, 9));
    for y in 0..3u32 {
        for x in 0..4u32 {
            let expected = if x >= 2 && y >= 1 { pixel_at(&canvas, 4, x, y) } else { [0, 0, 0, 0] };
            assert_eq!(pixel_at(&shm, 4, x, y), expected, "({x}, {y})");
        }
    }
    let before = shm.clone();
    copy_rect(&mut shm, &canvas, width, Rect::new(-5, 0, 3, 3));
    assert_eq!(shm, before, "a rectangle left of the canvas copies nothing");
}

#[test]
fn rgba_becomes_argb_in_little_endian() {
    let rgba = [0x11, 0x22, 0x33, 0x44, 0x55, 0x66, 0x77, 0x88, 0x99];
    let mut canvas = vec![0u8; 12];
    convert_rgba(&rgba, &mut canvas);
    assert_eq!(canvas, vec![0x33, 0x22, 0x11, 0x44, 0x77, 0x66, 0x55, 0x88, 0, 0, 0, 0]);
    let argb = u32::from_be_bytes([0x44, 0x11, 0x22, 0x33]).to_le_bytes();
    assert_eq!(&canvas[0..4], &argb);
}

#[test]
fn white_is_premultiplied() {
    assert_eq!(premultiplied_white(0), 0);
    assert_eq!(premultiplied_white(255), 0xFFFF_FFFF);
    assert_eq!(premultiplied_white(0x80), 0x8080_8080);
}

#[test]
fn damage_reaches_both_buffers() {
    let mut presenter = Presenter::new();
    let a = Rect::new(0, 0, 5, 5);
    let b = Rect::new(10, 10, 2, 2);
    assert!(presenter.mark_dirty(a));
    assert!(!presenter.mark_dirty(b), "a frame is already requested");

    // The first buffer is free: it gets the damage, the second goes stale.
    let flush = presenter.flush(true, true).expect("a buffer is free");
    assert_eq!(flush.buffer, 0);
    assert_eq!(flush.copy, vec![a, b]);
    assert_eq!(flush.damage, vec![a, b]);
    assert!(presenter.pending.is_empty());

    // Next frame, only the second buffer is free: it catches up.
    assert!(!presenter.on_frame_callback());
    assert!(presenter.mark_dirty(Rect::new(1, 1, 1, 1)));
    let flush = presenter.flush(false, true).expect("a buffer is free");
    assert_eq!(flush.buffer, 1);
    assert_eq!(flush.copy, vec![a, b, Rect::new(1, 1, 1, 1)]);
    assert_eq!(flush.damage, vec![Rect::new(1, 1, 1, 1)]);
    assert_eq!(presenter.stale_first, vec![Rect::new(1, 1, 1, 1)]);
    assert!(presenter.stale_second.is_empty());
}

#[test]
fn frames_wait_for_a_free_buffer_and_empty_damage() {
    let mut presenter = Presenter::new();
    presenter.mark_dirty(Rect::new(0, 0, 1, 1));
    assert!(presenter.flush(false, false).is_none());
    assert_eq!(presenter.pending.len(), 1);
    assert!(presenter.on_frame_callback(), "damage is waiting");
    let mut idle = Presenter::new();
    idle.mark_dirty(Rect::new(3, 3, 0, 4));
    assert!(!idle.on_frame_callback(), "an empty rectangle needs no frame");
}

#[test]
fn circle_damage_covers_the_disc_and_is_clipped() {
    // Radius 1.5 around (10.25, 20): x from floor(8.75) = 8 to ceil(11.75) = 12.
    let r = circle_dirty_rect(Point { x: 10 * 256 + 64, y: 20 * 256 }, 384, 64, 64);
    assert_eq!(r, Rect::new(8, 18, 4, 4));
    // Near the origin the rectangle starts at 0; past the far edge it ends there.
    let r = circle_dirty_rect(Point { x: 256, y: 63 * 256 }, 2560, 64, 64);
    assert_eq!(r, Rect::new(0, 53, 11, 11));
    // Wholly outside: empty.
    let r = circle_dirty_rect(Point { x: -100 * 256, y: 0 }, 256, 64, 64);
    assert_eq!(r.width, 0);
}

#[test]
fn stroke_damage_is_the_grown_box_of_both_ends() {
    let r = stroke_dirty_rect(Point { x: 30 * 256, y: 5 * 256 }, Point { x: 10 * 256, y: 15 * 256 }, 256, 100, 100);
    assert_eq!(r, Rect::new(9, 4, 22, 12));
}
