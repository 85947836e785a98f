use waydoodle::actions::{Action, Key};
use waydoodle::canvas::{Color, PixelPos, Point, Rect};
use waydoodle::ui::{metrics_usable, ContextMenu};
use waydoodle::waydoodle::{
    configure_step, damage_fits, focus_step, toggle_step, CanvasOp, ConfigureStep, CursorShape, FocusStep,
    HistoryItem, InputButton, OverlayController, OverlayState, OverlayStatus, ToggleStep, Tool, ERASER_RADIUS,
    PEN_RADIUS,
};

const TEST_WIDTH: i32 = 64;
const TEST_HEIGHT: i32 = 64;

/// A point given in whole pixels, in the 1/256-pixel units of the overlay.
fn pt(x: i32, y: i32) -> Point {
    Point { x: x * 256, y: y * 256 }
}

/// Text measurements as a font 7 pixels wide and 13 high gives them.
fn metrics() -> (i32, Vec<(i32, i32)>) {
    let widths = ContextMenu::row_texts()
        .iter()
        .map(|(label, accel)| (label.len() as i32 * 7, accel.len() as i32 * 7))
        .collect();
    (13, widths)
}

fn new_overlay() -> OverlayState {
    let (font_height, widths) = metrics();
    assert!(metrics_usable(font_height, &widths));
    OverlayState::new(TEST_WIDTH, TEST_HEIGHT, font_height, widths)
}

struct MockApp {
    overlay: Option<Option<OverlayState>>,
}

impl MockApp {
    fn new() -> Self {
        Self { overlay: None }
    }

    fn with_pending() -> Self {
        Self { overlay: Some(None) }
    }

    fn with_overlay() -> Self {
        Self { overlay: Some(Some(new_overlay())) }
    }
}

impl OverlayController for MockApp {
    fn status_view(&self) -> OverlayStatus {
        self.overlay_status()
    }

    fn overlay_created(_old: Self, new: Self) -> bool {
        !matches!(new.overlay_status(), OverlayStatus::Absent)
    }

    fn focus_toggled_or_destroyed(_old: Self, new: Self) -> bool {
        new.overlay.is_none()
    }

    fn overlay_status(&self) -> OverlayStatus {
        match self.overlay {
            None => OverlayStatus::Absent,
            Some(None) => OverlayStatus::Pending,
            Some(Some(_)) => OverlayStatus::Ready,
        }
    }

    fn create_overlay(&mut self) {
        self.overlay = Some(Some(new_overlay()));
    }

    fn destroy_overlay(&mut self) {
        self.overlay = None;
    }

    fn toggle_focus_or_destroy_overlay(&mut self) {
        self.destroy_overlay();
    }
}

/// Draws a red stroke from `(x0, y)` to `(x1, y)` and releases.
fn draw_stroke(overlay: &mut OverlayState, x0: i32, x1: i32, y: i32) -> Vec<CanvasOp> {
    let mut ops = overlay.on_pointer_button_pressed(pt(x0, y), InputButton::Primary);
    ops.extend(overlay.on_pointer_motion(pt(x1, y)));
    ops.extend(overlay.on_pointer_button_released(pt(x1, y), InputButton::Primary));
    ops
}

#[test]
fn pen_brush_radius_is_1_5() {
    assert_eq!(Tool::Pen(Color::red()).brush_radius() as f64 / 256.0, 1.5);
}

#[test]
fn eraser_brush_radius_is_10() {
    assert_eq!(Tool::Eraser.brush_radius() as f64 / 256.0, 10.0);
}

#[test]
fn pen_cursor_shape_is_crosshair() {
    assert_eq!(Tool::Pen(Color::red()).cursor_shape(), CursorShape::Crosshair);
}

#[test]
fn eraser_cursor_shape_is_circle() {
    assert_eq!(Tool::Eraser.cursor_shape(), CursorShape::Circle);
}

#[test]
fn pen_pixel_color_returns_its_color() {
    assert_eq!(Tool::Pen(Color::red()).pixel_color(Color::black()), Color::red());
    assert_eq!(Tool::Pen(Color::blue()).pixel_color(Color::black()), Color::blue());
    assert_eq!(Tool::Pen(Color::green()).pixel_color(Color::black()), Color::green());
}

#[test]
fn eraser_pixel_color_returns_transparent() {
    assert_eq!(Tool::Eraser.pixel_color(Color::black()), Color::black());
}

#[test]
fn default_tool_is_red_pen() {
    assert_eq!(Tool::default(), Tool::Pen(Color::red()));
}

#[test]
fn on_key_pressed_r_sets_red_pen() {
    let mut overlay = new_overlay();
    let _ = overlay.take_damage();
    overlay.primary_tool = Tool::Eraser;
    overlay.on_key_pressed(Key::R);
    assert!(overlay.keep_open);
    assert!(!overlay.damage.is_empty());
    assert_eq!(overlay.cursor_shape(), CursorShape::Crosshair);
    assert_eq!(overlay.primary_tool, Tool::Pen(Color::red()));
}

#[test]
fn on_key_pressed_e_sets_eraser() {
    let mut overlay = new_overlay();
    let _ = overlay.take_damage();
    overlay.on_key_pressed(Key::E);
    assert!(overlay.keep_open);
    assert!(!overlay.damage.is_empty());
    assert_eq!(overlay.cursor_shape(), CursorShape::Circle);
    assert_eq!(overlay.primary_tool, Tool::Eraser);
}

#[test]
fn on_key_pressed_c_clears_canvas() {
    let mut overlay = new_overlay();
    let _ = overlay.take_damage();
    let ops = overlay.on_key_pressed(Key::C);
    assert!(overlay.keep_open);
    assert!(!overlay.damage.is_empty());
    assert_eq!(overlay.cursor_shape(), CursorShape::Crosshair);
    assert_eq!(ops, vec![CanvasOp::Fill(Color::transparent())]);
    assert_eq!(overlay.history, vec![HistoryItem::Clear(Color::transparent())]);
}

#[test]
fn on_key_pressed_escape_returns_hide() {
    let mut overlay = new_overlay();
    let _ = overlay.take_damage();
    overlay.on_key_pressed(Key::Escape);
    assert!(!overlay.keep_open);
}

#[test]
fn on_key_pressed_unbound_key_changes_nothing() {
    let mut overlay = new_overlay();
    let _ = overlay.take_damage();
    let tool_before = overlay.primary_tool;

    let ops = overlay.on_key_pressed(Key::Other);
    assert!(ops.is_empty());
    assert!(overlay.keep_open);
    assert!(overlay.damage.is_empty());
    assert_eq!(overlay.primary_tool, tool_before);
}

#[test]
fn on_pointer_motion_with_pen_draws_pixels() {
    let mut overlay = new_overlay();
    let _ = overlay.take_damage();
    overlay.primary_tool = Tool::Pen(Color::red());
    overlay.on_pointer_button_pressed(pt(10, 10), InputButton::Primary);

    let ops = overlay.on_pointer_motion(pt(20, 10));
    assert_eq!(
        ops,
        vec![CanvasOp::DrawLine { from: pt(10, 10), to: pt(20, 10), radius: PEN_RADIUS, color: Color::red() }]
    );
    let damage = overlay.take_damage().expect("expected damage from pointer motion");
    assert!(damage.width > 0);
    assert!(damage.height > 0);
    // The dot at (10, 10) and the line to (20, 10), of radius 1.5.
    assert_eq!(damage, Rect::new(8, 8, 13, 3));
}

#[test]
fn on_pointer_motion_while_not_pressed_returns_none() {
    let mut overlay = new_overlay();
    let _ = overlay.take_damage();

    let ops = overlay.on_pointer_motion(pt(20, 10));
    assert!(ops.is_empty());
    assert!(overlay.take_damage().is_none(), "expected no damage when pointer moves without a stroke");
}

#[test]
fn on_pointer_motion_with_eraser_clears_pixels() {
    let mut overlay = new_overlay();
    let _ = overlay.take_damage();
    overlay.primary_tool = Tool::Pen(Color::red());
    draw_stroke(&mut overlay, 10, 30, 30);

    overlay.primary_tool = Tool::Eraser;
    overlay.on_pointer_button_pressed(pt(10, 30), InputButton::Primary);
    let ops = overlay.on_pointer_motion(pt(30, 30));
    assert_eq!(
        ops,
        vec![CanvasOp::DrawLine {
            from: pt(10, 30),
            to: pt(30, 30),
            radius: ERASER_RADIUS,
            color: Color::transparent(),
        }]
    );
}

#[test]
fn middle_mouse_button_uses_eraser_tool() {
    let mut overlay = new_overlay();
    let _ = overlay.take_damage();
    overlay.primary_tool = Tool::Pen(Color::red());
    draw_stroke(&mut overlay, 10, 30, 30);

    let mut ops = overlay.on_pointer_button_pressed(pt(10, 30), InputButton::Tertiary);
    ops.extend(overlay.on_pointer_motion(pt(30, 30)));
    ops.extend(overlay.on_pointer_button_released(pt(30, 30), InputButton::Tertiary));
    assert_eq!(
        ops,
        vec![
            CanvasOp::DrawCircle { center: pt(10, 30), radius: ERASER_RADIUS, color: Color::transparent() },
            CanvasOp::DrawLine {
                from: pt(10, 30),
                to: pt(30, 30),
                radius: ERASER_RADIUS,
                color: Color::transparent(),
            },
        ]
    );
    // The override ends with the release.
    assert_eq!(overlay.current_tool(), Tool::Pen(Color::red()));
}

#[test]
fn begin_stroke_draws_circle_at_point() {
    let mut overlay = new_overlay();
    let _ = overlay.take_damage();
    overlay.primary_tool = Tool::Pen(Color::green());

    let ops = overlay.on_pointer_button_pressed(pt(32, 32), InputButton::Primary);
    assert_eq!(ops, vec![CanvasOp::DrawCircle { center: pt(32, 32), radius: PEN_RADIUS, color: Color::green() }]);
    let damage = overlay.take_damage().expect("expected damage from begin_stroke");
    assert!(damage.width > 0);
    assert!(damage.height > 0);
    assert_eq!(damage, Rect::new(30, 30, 3, 3));
}

#[test]
fn stroke_damage_keeps_its_width_at_the_edge() {
    // Radius 10 around (2, 2): from -8, clamped to 0, and 20 pixels long.
    let mut overlay = new_overlay();
    let _ = overlay.take_damage();
    overlay.primary_tool = Tool::Eraser;
    overlay.on_pointer_button_pressed(pt(2, 2), InputButton::Primary);
    assert_eq!(overlay.take_damage(), Some(Rect::new(0, 0, 20, 20)));
}

#[test]
fn on_pointer_leave_clears_current_stroke() {
    let mut overlay = new_overlay();
    let _ = overlay.take_damage();
    overlay.on_pointer_button_pressed(pt(10, 10), InputButton::Primary);
    assert!(overlay.current_stroke.is_some());
    overlay.on_pointer_leave();
    assert!(overlay.current_stroke.is_none());
}

#[test]
fn end_stroke_clears_current_stroke() {
    let mut overlay = new_overlay();
    let _ = overlay.take_damage();
    overlay.on_pointer_button_pressed(pt(10, 10), InputButton::Primary);
    assert!(overlay.current_stroke.is_some());
    overlay.on_pointer_button_released(pt(10, 10), InputButton::Primary);
    assert!(overlay.current_stroke.is_none());
}

#[test]
fn on_size_changed_clears_canvas_and_returns_full_rect() {
    let mut overlay = new_overlay();
    let _ = overlay.take_damage();

    overlay.resize(TEST_WIDTH, TEST_HEIGHT);
    let rect = overlay.take_damage().expect("expected damage after resizing overlay");
    assert_eq!(rect.x, 0);
    assert_eq!(rect.y, 0);
    assert_eq!(rect.width, TEST_WIDTH);
    assert_eq!(rect.height, TEST_HEIGHT);
}

#[test]
fn toggle_overlay_when_none_creates_overlay() {
    let mut app = MockApp::new();
    assert!(app.overlay.is_none());

    app.on_toggle_overlay();

    let overlay = app.overlay;
    assert!(overlay.is_some());
    assert!(overlay.unwrap().is_some());
}

#[test]
fn toggle_overlay_when_pending_does_nothing() {
    let mut app = MockApp::with_pending();
    assert!(matches!(app.overlay_status(), OverlayStatus::Pending));

    app.on_toggle_overlay();

    assert!(matches!(app.overlay_status(), OverlayStatus::Pending));
}

#[test]
fn toggle_overlay_when_ready_destroys_overlay() {
    let mut app = MockApp::with_overlay();
    assert!(matches!(app.overlay_status(), OverlayStatus::Ready));

    app.on_toggle_overlay();

    assert!(matches!(app.overlay_status(), OverlayStatus::Absent));
}

#[test]
fn toggle_steps_follow_the_status() {
    assert_eq!(toggle_step(OverlayStatus::Absent), ToggleStep::Create);
    assert_eq!(toggle_step(OverlayStatus::Pending), ToggleStep::Wait);
    assert_eq!(toggle_step(OverlayStatus::Ready), ToggleStep::ToggleFocusOrDestroy);
}

#[test]
fn on_key_pressed_u_undoes_last_stroke() {
    let mut overlay = new_overlay();
    let _ = overlay.take_damage();
    overlay.primary_tool = Tool::Pen(Color::red());
    draw_stroke(&mut overlay, 10, 20, 10);

    assert_eq!(overlay.history.len(), 1);

    let ops = overlay.on_key_pressed(Key::U);
    assert!(overlay.keep_open);
    assert!(!overlay.damage.is_empty());
    assert!(overlay.history.is_empty());
    assert_eq!(ops, vec![CanvasOp::Clear]);
}

#[test]
fn on_key_pressed_c_then_u_restores_drawing() {
    let mut overlay = new_overlay();
    let _ = overlay.take_damage();
    overlay.primary_tool = Tool::Pen(Color::red());
    let drawn = draw_stroke(&mut overlay, 10, 20, 10);

    let ops = overlay.on_key_pressed(Key::C);
    assert!(overlay.keep_open);
    assert!(!overlay.damage.is_empty());
    assert_eq!(overlay.cursor_shape(), CursorShape::Crosshair);
    assert_eq!(ops, vec![CanvasOp::Fill(Color::transparent())]);

    let ops = overlay.on_key_pressed(Key::U);
    assert!(overlay.keep_open);
    assert!(!overlay.damage.is_empty());
    let mut expected = vec![CanvasOp::Clear];
    expected.extend(drawn);
    assert_eq!(ops, expected, "undoing the clear redraws the stroke");
}

#[test]
fn multiple_strokes_undo_in_order() {
    let mut overlay = new_overlay();
    let _ = overlay.take_damage();

    overlay.primary_tool = Tool::Pen(Color::red());
    let first = draw_stroke(&mut overlay, 10, 20, 10);

    overlay.primary_tool = Tool::Pen(Color::blue());
    draw_stroke(&mut overlay, 10, 20, 50);

    assert_eq!(overlay.history.len(), 2);

    let ops = overlay.on_key_pressed(Key::U);
    assert_eq!(overlay.history.len(), 1);
    let mut expected = vec![CanvasOp::Clear];
    expected.extend(first);
    assert_eq!(ops, expected);

    let ops = overlay.on_key_pressed(Key::U);
    assert!(overlay.history.is_empty());
    assert_eq!(ops, vec![CanvasOp::Clear]);

    let ops = overlay.on_key_pressed(Key::U);
    assert!(ops.is_empty(), "nothing left to undo");
}

#[test]
fn begin_stroke_starts_current_stroke() {
    let mut overlay = new_overlay();
    let _ = overlay.take_damage();
    overlay.primary_tool = Tool::Pen(Color::green());

    overlay.on_pointer_button_pressed(pt(15, 25), InputButton::Primary);

    let stroke = overlay.current_stroke.expect("stroke should be in progress");
    assert_eq!(stroke.points.len(), 1);
    assert_eq!(stroke.points[0].x, 15 * 256);
    assert_eq!(stroke.points[0].y, 25 * 256);
}

#[test]
fn on_pointer_motion_appends_to_current_stroke() {
    let mut overlay = new_overlay();
    let _ = overlay.take_damage();
    overlay.primary_tool = Tool::Pen(Color::red());

    overlay.on_pointer_button_pressed(pt(5, 5), InputButton::Primary);
    overlay.on_pointer_motion(pt(15, 15));

    let stroke = overlay.current_stroke.as_ref().expect("stroke should be in progress");
    assert_eq!(stroke.points.len(), 2);
    assert_eq!(stroke.points[1].x, 15 * 256);
    assert_eq!(stroke.points[1].y, 15 * 256);
    assert!(overlay.history.is_empty());
    let damage = overlay.take_damage().expect("expected damage from the stroke");
    assert!(damage.width > 0);
    assert!(damage.height > 0);
}

#[test]
fn end_stroke_finalizes_stroke() {
    let mut overlay = new_overlay();
    let _ = overlay.take_damage();
    overlay.primary_tool = Tool::Pen(Color::red());

    overlay.on_pointer_button_pressed(pt(5, 5), InputButton::Primary);
    overlay.on_pointer_motion(pt(15, 15));
    overlay.on_pointer_button_released(pt(15, 15), InputButton::Primary);

    assert!(overlay.current_stroke.is_none());
    assert_eq!(overlay.history.len(), 1);
}

#[test]
fn on_size_changed_clears_history() {
    let mut overlay = new_overlay();
    let _ = overlay.take_damage();
    overlay.primary_tool = Tool::Pen(Color::red());
    draw_stroke(&mut overlay, 10, 20, 10);

    assert_eq!(overlay.history.len(), 1);

    overlay.resize(TEST_WIDTH, TEST_HEIGHT);

    assert!(overlay.history.is_empty());
}

#[test]
fn on_key_pressed_period_fills_black_background() {
    let mut overlay = new_overlay();
    let _ = overlay.take_damage();

    let ops = overlay.on_key_pressed(Key::Period);
    assert!(overlay.keep_open);
    assert!(!overlay.damage.is_empty());
    assert_eq!(overlay.history.len(), 1);
    assert_eq!(ops, vec![CanvasOp::Fill(Color::black())]);
    assert_eq!(overlay.background_color, Color::black());
}

#[test]
fn on_key_pressed_comma_fills_white_background() {
    let mut overlay = new_overlay();
    let _ = overlay.take_damage();

    let ops = overlay.on_key_pressed(Key::Comma);
    assert!(overlay.keep_open);
    assert!(!overlay.damage.is_empty());
    assert_eq!(overlay.history.len(), 1);
    assert_eq!(ops, vec![CanvasOp::Fill(Color::white())]);
}

#[test]
fn fill_background_then_undo_restores_previous() {
    let mut overlay = new_overlay();
    let _ = overlay.take_damage();
    overlay.primary_tool = Tool::Pen(Color::red());
    let drawn = draw_stroke(&mut overlay, 10, 20, 10);

    let ops = overlay.on_key_pressed(Key::Period);
    assert_eq!(ops, vec![CanvasOp::Fill(Color::black())]);

    let ops = overlay.on_key_pressed(Key::U);
    assert!(overlay.keep_open);
    assert!(!overlay.damage.is_empty());
    let mut expected = vec![CanvasOp::Clear];
    expected.extend(drawn);
    assert_eq!(ops, expected);
}

#[test]
fn same_background_twice_is_not_recorded() {
    let mut overlay = new_overlay();
    overlay.on_key_pressed(Key::Period);
    let ops = overlay.on_key_pressed(Key::Period);
    assert!(ops.is_empty());
    assert_eq!(overlay.history.len(), 1);
}

#[test]
fn right_mouse_button_opens_context_menu() {
    let mut overlay = new_overlay();
    let _ = overlay.take_damage();

    overlay.on_pointer_button_pressed(pt(10, 10), InputButton::Secondary);
    assert!(overlay.keep_open);
    assert!(!overlay.damage.is_empty());
    assert!(overlay.ui.is_context_menu_open());
    let _ = overlay.take_damage();

    // hover some menu item
    let rect = overlay.ui.context_menu_rect().expect("expected context menu rect");
    let point = pt(rect.x + rect.width - 5, rect.y + 5);
    overlay.on_pointer_motion(point);
    let damage = overlay.take_damage().expect("expected damage from hovering menu item");
    assert!(damage.width > 0);

    // Release the button.
    // Some op should be triggered, and the menu should close.
    overlay.on_pointer_button_released(point, InputButton::Secondary);
    assert!(overlay.keep_open);
    assert!(!overlay.damage.is_empty());
    assert!(!overlay.ui.is_context_menu_open());
}

#[test]
fn menu_can_be_used_with_keyboard() {
    let mut overlay = new_overlay();
    let _ = overlay.take_damage();

    // Open the menu with space.
    overlay.on_key_pressed(Key::Space);
    assert!(overlay.keep_open);
    assert!(!overlay.damage.is_empty());
    assert!(overlay.ui.is_context_menu_open());

    // Focus Clear and apply it.
    overlay.on_key_pressed(Key::Up);
    assert!(overlay.keep_open);
    assert!(!overlay.damage.is_empty());
    overlay.on_key_pressed(Key::Up);
    assert!(overlay.keep_open);
    assert!(!overlay.damage.is_empty());
    overlay.on_key_pressed(Key::Up);
    assert!(overlay.keep_open);
    assert!(!overlay.damage.is_empty());
    assert!(matches!(overlay.ui.get_menu_selection(), Some(Action::Clear)));
    overlay.on_key_pressed(Key::Return);
    assert!(overlay.keep_open);
    assert!(!overlay.damage.is_empty());
    assert!(!overlay.ui.is_context_menu_open());
    assert!(matches!(overlay.history.last(), Some(HistoryItem::Clear(_))));
}

#[test]
fn damage_is_the_bounding_box_of_what_was_marked() {
    let mut overlay = new_overlay();
    assert_eq!(overlay.take_damage(), Some(Rect::new(0, 0, TEST_WIDTH, TEST_HEIGHT)));
    assert_eq!(overlay.take_damage(), None);
    overlay.mark_dirty(Rect::new(10, 20, 5, 5));
    overlay.mark_dirty(Rect::new(30, 2, 0, 9));
    overlay.mark_dirty(Rect::new(2, 40, 3, 1));
    assert_eq!(overlay.take_damage(), Some(Rect::new(2, 20, 13, 21)));
}

#[test]
fn configure_and_focus_steps() {
    assert_eq!(configure_step(OverlayStatus::Pending, (0, 0), (800, 600)), ConfigureStep::Create);
    assert_eq!(configure_step(OverlayStatus::Ready, (800, 600), (800, 600)), ConfigureStep::Ignore);
    assert_eq!(configure_step(OverlayStatus::Ready, (800, 600), (1024, 600)), ConfigureStep::Resize);
    assert_eq!(configure_step(OverlayStatus::Absent, (0, 0), (800, 600)), ConfigureStep::Ignore);
    assert_eq!(focus_step(false, true), FocusStep::Destroy);
    assert_eq!(focus_step(true, true), FocusStep::Unfocus);
    assert_eq!(focus_step(true, false), FocusStep::Focus);
}

#[test]
fn damage_must_start_on_the_canvas() {
    assert!(damage_fits(Rect::new(0, 0, 10, 10)));
    assert!(!damage_fits(Rect::new(-1, 0, 10, 10)));
    assert!(!damage_fits(Rect::new(i32::MAX, 0, 1, 1)));
}

#[test]
fn menu_metrics_are_checked() {
    let (font_height, widths) = metrics();
    assert!(metrics_usable(font_height, &widths));
    assert!(!metrics_usable(-1, &widths));
    assert!(!metrics_usable(font_height, &widths[..5].to_vec()));
    let mut wide = widths.clone();
    wide[0].0 = 0x4000_0000;
    assert!(!metrics_usable(font_height, &wide));
}

#[test]
fn context_menu_stays_on_the_screen() {
    let (font_height, widths) = metrics();
    let probe = ContextMenu::new(PixelPos { x: 10, y: 0 }, 1000, 1000, font_height, &widths);
    let menu_h = probe.rect().height;
    assert!(menu_h > 10);

    // Room below: the menu opens 5 pixels below the pointer.
    let screen_h = menu_h + 50;
    let menu = ContextMenu::new(PixelPos { x: 10, y: 40 }, 1000, screen_h, font_height, &widths);
    assert_eq!(menu.rect().y, 45);

    // No room below nor above: the menu is clamped to the screen.
    let screen_h = 2 * menu_h;
    let menu = ContextMenu::new(PixelPos { x: 10, y: menu_h - 2 }, 1000, screen_h, font_height, &widths);
    assert_eq!(menu.rect().y, 0);
    assert!(menu.rect().y + menu.rect().height <= screen_h);

    // No room below: it opens above, ending 5 pixels above the pointer.
    let menu = ContextMenu::new(PixelPos { x: 10, y: screen_h - 1 }, 1000, screen_h, font_height, &widths);
    assert_eq!(menu.rect().y + menu_h + 5, screen_h - 1);
}

#[test]
fn f1_toggles_the_help_panel_and_redraws_everything() {
    let mut overlay = new_overlay();
    let _ = overlay.take_damage();
    assert!(!overlay.help_shown);
    let ops = overlay.on_key_pressed(Key::F1);
    assert!(ops.is_empty());
    assert!(overlay.help_shown);
    assert_eq!(overlay.take_damage(), Some(Rect::new(0, 0, TEST_WIDTH, TEST_HEIGHT)));
    overlay.on_key_pressed(Key::F1);
    assert!(!overlay.help_shown);
    assert!(overlay.keep_open);
}
