use waydoodle::actions::Key;
use waydoodle::input::BTN_LEFT;
use waydoodle::model::{
    BrushStyle, Color, Command, Overlay, Point, PointerEventKind, PointerTracker, Tool, Waydoodle,
    ERASER_RADIUS, PEN_RADIUS,
};

/// A point given in whole pixels, in the 1/256-pixel units of the model.
fn pt(x: i32, y: i32) -> Point {
    Point { x: x * 256, y: y * 256 }
}

#[test]
fn overlay_defaults_to_red_pen() {
    let overlay = Overlay::new();
    assert_eq!(overlay.current_tool, Tool::Pen(Color::Red));
}

#[test]
fn set_tool_returns_cursor_command() {
    let mut overlay = Overlay::new();

    let cmd = overlay.set_tool(Tool::Pen(Color::Blue));
    assert_eq!(cmd, Command::SetCrosshairCursor);
    assert_eq!(overlay.current_tool, Tool::Pen(Color::Blue));

    let cmd = overlay.set_tool(Tool::Eraser);
    assert_eq!(cmd, Command::SetCircleCursor);
    assert_eq!(overlay.current_tool, Tool::Eraser);

    let cmd = overlay.set_tool(Tool::Pen(Color::Green));
    assert_eq!(cmd, Command::SetCrosshairCursor);
    assert_eq!(overlay.current_tool, Tool::Pen(Color::Green));
}

#[test]
fn cursor_command_reflects_tool() {
    let mut overlay = Overlay::new();
    assert_eq!(overlay.cursor_command(), Command::SetCrosshairCursor);

    overlay.current_tool = Tool::Eraser;
    assert_eq!(overlay.cursor_command(), Command::SetCircleCursor);

    overlay.current_tool = Tool::Pen(Color::Yellow);
    assert_eq!(overlay.cursor_command(), Command::SetCrosshairCursor);
}

#[test]
fn clear_returns_clear_command() {
    let overlay = Overlay::new();
    assert_eq!(overlay.clear(), Command::ClearBuffer);
}

#[test]
fn draw_dot_pen() {
    let overlay = Overlay::new();
    let cmd = overlay.draw_dot(pt(10, 20));
    assert_eq!(
        cmd,
        Command::DrawDot { style: BrushStyle::Draw(Color::Red), radius: PEN_RADIUS, center: pt(10, 20) }
    );
}

#[test]
fn draw_dot_eraser() {
    let mut overlay = Overlay::new();
    overlay.current_tool = Tool::Eraser;
    let cmd = overlay.draw_dot(pt(5, 5));
    assert_eq!(cmd, Command::DrawDot { style: BrushStyle::Erase, radius: ERASER_RADIUS, center: pt(5, 5) });
}

#[test]
fn draw_line_pen() {
    let mut overlay = Overlay::new();
    overlay.current_tool = Tool::Pen(Color::Blue);
    let cmd = overlay.draw(pt(10, 50), pt(20, 50));
    assert_eq!(
        cmd,
        Command::DrawLine {
            style: BrushStyle::Draw(Color::Blue),
            radius: PEN_RADIUS,
            from: pt(10, 50),
            to: pt(20, 50),
        }
    );
}

#[test]
fn draw_line_eraser() {
    let mut overlay = Overlay::new();
    overlay.current_tool = Tool::Eraser;
    let cmd = overlay.draw(pt(0, 0), pt(5, 5));
    assert_eq!(
        cmd,
        Command::DrawLine { style: BrushStyle::Erase, radius: ERASER_RADIUS, from: pt(0, 0), to: pt(5, 5) }
    );
}

#[test]
fn draw_line_all_colors() {
    for color in [Color::Red, Color::Green, Color::Blue, Color::Yellow] {
        let mut overlay = Overlay::new();
        overlay.current_tool = Tool::Pen(color);
        let cmd = overlay.draw(pt(0, 0), pt(1, 1));
        assert_eq!(
            cmd,
            Command::DrawLine { style: BrushStyle::Draw(color), radius: PEN_RADIUS, from: pt(0, 0), to: pt(1, 1) }
        );
    }
}

#[test]
fn pen_radius_is_one_and_a_half_pixels_and_eraser_ten() {
    assert_eq!(PEN_RADIUS as f64 / 256.0, 1.5);
    assert_eq!(ERASER_RADIUS as f64 / 256.0, 10.0);
}

#[test]
fn waydoodle_starts_with_no_overlay() {
    let app = Waydoodle::new();
    assert!(app.overlay.is_none());
}

#[test]
fn toggle_overlay_on() {
    let mut app = Waydoodle::new();
    let cmds = app.toggle_overlay();
    assert!(app.overlay.is_some());
    assert_eq!(cmds, vec![Command::ShowOverlay, Command::SetCrosshairCursor]);
}

#[test]
fn toggle_overlay_off() {
    let mut app = Waydoodle::new();
    app.toggle_overlay();
    let cmds = app.toggle_overlay();
    assert!(app.overlay.is_none());
    assert_eq!(cmds, vec![Command::HideOverlay]);
}

#[test]
fn show_overlay_returns_show_and_cursor() {
    let mut app = Waydoodle::new();
    let cmds = app.show_overlay();
    assert!(app.overlay.is_some());
    assert_eq!(cmds, vec![Command::ShowOverlay, Command::SetCrosshairCursor]);
}

#[test]
fn show_overlay_resets_state() {
    let mut app = Waydoodle::new();
    app.show_overlay();
    app.overlay.as_mut().unwrap().current_tool = Tool::Eraser;

    let cmds = app.show_overlay();
    assert_eq!(app.overlay.as_ref().unwrap().current_tool, Tool::Pen(Color::Red));
    assert_eq!(cmds, vec![Command::ShowOverlay, Command::SetCrosshairCursor]);
}

#[test]
fn hide_overlay_returns_hide() {
    let mut app = Waydoodle::new();
    app.show_overlay();
    let cmds = app.hide_overlay();
    assert!(app.overlay.is_none());
    assert_eq!(cmds, vec![Command::HideOverlay]);
}

#[test]
fn hide_overlay_when_already_hidden() {
    let mut app = Waydoodle::new();
    let cmds = app.hide_overlay();
    assert!(app.overlay.is_none());
    assert_eq!(cmds, vec![Command::HideOverlay]);
}

#[test]
fn full_interaction_scenario() {
    let mut app = Waydoodle::new();

    let cmds = app.toggle_overlay();
    assert_eq!(cmds[0], Command::ShowOverlay);

    let cmd = app.overlay.as_ref().unwrap().draw_dot(pt(100, 200));
    assert_eq!(
        cmd,
        Command::DrawDot { style: BrushStyle::Draw(Color::Red), radius: PEN_RADIUS, center: pt(100, 200) }
    );

    let cmd = app.overlay.as_mut().unwrap().set_tool(Tool::Pen(Color::Blue));
    assert_eq!(cmd, Command::SetCrosshairCursor);

    let cmd = app.overlay.as_ref().unwrap().draw(pt(100, 200), pt(150, 200));
    assert_eq!(
        cmd,
        Command::DrawLine {
            style: BrushStyle::Draw(Color::Blue),
            radius: PEN_RADIUS,
            from: pt(100, 200),
            to: pt(150, 200),
        }
    );

    let cmd = app.overlay.as_mut().unwrap().set_tool(Tool::Eraser);
    assert_eq!(cmd, Command::SetCircleCursor);

    let cmd = app.overlay.as_ref().unwrap().draw_dot(pt(120, 200));
    assert_eq!(cmd, Command::DrawDot { style: BrushStyle::Erase, radius: ERASER_RADIUS, center: pt(120, 200) });

    let cmd = app.overlay.as_ref().unwrap().clear();
    assert_eq!(cmd, Command::ClearBuffer);

    let cmds = app.toggle_overlay();
    assert_eq!(cmds, vec![Command::HideOverlay]);
}

#[test]
fn toggling_twice_from_none_leaves_none() {
    let mut app = Waydoodle::new();
    app.toggle_overlay();
    app.toggle_overlay();
    assert!(app.overlay.is_none());
}

#[test]
fn keys_pick_tools_only_with_an_overlay() {
    let mut app = Waydoodle::new();
    assert_eq!(app.handle_key(Key::E), None);
    app.show_overlay();
    assert_eq!(app.handle_key(Key::E), Some(Command::SetCircleCursor));
    assert_eq!(app.overlay.as_ref().unwrap().current_tool, Tool::Eraser);
    assert_eq!(app.handle_key(Key::B), Some(Command::SetCrosshairCursor));
    assert_eq!(app.overlay.as_ref().unwrap().current_tool, Tool::Pen(Color::Blue));
    assert_eq!(app.handle_key(Key::C), Some(Command::ClearBuffer));
    assert_eq!(app.overlay.as_ref().unwrap().current_tool, Tool::Pen(Color::Blue));
    assert_eq!(app.handle_key(Key::Space), None);
}

#[test]
fn pointer_draws_while_the_left_button_is_held() {
    let mut app = Waydoodle::new();
    app.show_overlay();
    let mut pointer = PointerTracker::new();

    assert_eq!(pointer.on_event(&app.overlay, PointerEventKind::Enter, pt(1, 1)), None);
    assert_eq!(pointer.on_event(&app.overlay, PointerEventKind::Motion, pt(2, 2)), None);
    assert_eq!(
        pointer.on_event(&app.overlay, PointerEventKind::Press(BTN_LEFT), pt(3, 3)),
        Some(Command::DrawDot { style: BrushStyle::Draw(Color::Red), radius: PEN_RADIUS, center: pt(3, 3) })
    );
    assert_eq!(
        pointer.on_event(&app.overlay, PointerEventKind::Motion, pt(4, 3)),
        Some(Command::DrawLine {
            style: BrushStyle::Draw(Color::Red),
            radius: PEN_RADIUS,
            from: pt(3, 3),
            to: pt(4, 3),
        })
    );
    assert_eq!(pointer.on_event(&app.overlay, PointerEventKind::Release(BTN_LEFT), pt(4, 3)), None);
    assert!(!pointer.pressed);
    assert_eq!(pointer.on_event(&app.overlay, PointerEventKind::Motion, pt(5, 3)), None);
    assert_eq!(pointer.pos, pt(5, 3));
}

#[test]
fn other_buttons_and_leaving_stop_nothing_from_being_drawn_wrongly() {
    let mut app = Waydoodle::new();
    let mut pointer = PointerTracker::new();
    assert_eq!(pointer.on_event(&app.overlay, PointerEventKind::Press(BTN_LEFT), pt(3, 3)), None);
    assert!(pointer.pressed);
    assert_eq!(pointer.on_event(&app.overlay, PointerEventKind::Motion, pt(4, 4)), None);
    app.show_overlay();
    assert_eq!(pointer.on_event(&app.overlay, PointerEventKind::Press(0x111), pt(5, 5)), None);
    assert_eq!(pointer.pos, pt(4, 4));
    assert_eq!(pointer.on_event(&app.overlay, PointerEventKind::Leave, pt(5, 5)), None);
    assert!(!pointer.pressed);
    assert_eq!(pointer.on_event(&app.overlay, PointerEventKind::Motion, pt(6, 6)), None);
    assert_eq!(pointer.on_event(&app.overlay, PointerEventKind::Axis, pt(7, 7)), None);
    assert_eq!(pointer.pos, pt(6, 6));
}
