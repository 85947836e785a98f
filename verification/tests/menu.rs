use waydoodle::actions::Key;
use waydoodle::canvas::Color;
use waydoodle::menu::{menu, KeyAction};
use waydoodle::waydoodle::Tool;

#[test]
fn swatch_returns_some_for_pen_entries() {
    for info in menu() {
        if let KeyAction::SetTool(Tool::Pen(color)) = info.action {
            assert_eq!(info.swatch(), Some(color));
        }
    }
}

#[test]
fn swatch_returns_none_for_non_pen_entries() {
    for info in menu() {
        match info.action {
            KeyAction::SetTool(Tool::Pen(_)) | KeyAction::SetBackground(_) => {}
            _ => {
                assert_eq!(info.swatch(), None);
            }
        }
    }
}

#[test]
fn background_entries_show_their_color() {
    let entries = menu();
    let black = entries.iter().find(|i| i.keysym == Key::Period).unwrap();
    assert_eq!(black.swatch(), Some(Color::black()));
}

#[test]
fn all_keys_contains_expected_keysyms() {
    let expected = [
        Key::R,
        Key::G,
        Key::B,
        Key::Y,
        Key::M,
        Key::N,
        Key::E,
        Key::C,
        Key::Period,
        Key::Comma,
        Key::Slash,
        Key::U,
        Key::Escape,
    ];
    let entries = menu();
    for ks in &expected {
        assert!(entries.iter().any(|i| i.keysym == *ks), "menu missing key {:?}", ks);
    }
    assert_eq!(entries.len(), expected.len());
}

#[test]
fn all_keys_maps_keysym_to_correct_action() {
    let cases: &[(Key, KeyAction)] = &[
        (Key::R, KeyAction::SetTool(Tool::Pen(Color::red()))),
        (Key::G, KeyAction::SetTool(Tool::Pen(Color::green()))),
        (Key::B, KeyAction::SetTool(Tool::Pen(Color::blue()))),
        (Key::Y, KeyAction::SetTool(Tool::Pen(Color::yellow()))),
        (Key::M, KeyAction::SetTool(Tool::Pen(Color::magenta()))),
        (Key::N, KeyAction::SetTool(Tool::Pen(Color::cyan()))),
        (Key::E, KeyAction::SetTool(Tool::Eraser)),
        (Key::C, KeyAction::Clear),
        (Key::Period, KeyAction::SetBackground(Color::black())),
        (Key::Comma, KeyAction::SetBackground(Color::white())),
        (Key::Slash, KeyAction::SetBackground(Color::transparent())),
        (Key::U, KeyAction::Undo),
        (Key::Escape, KeyAction::HideOverlay),
    ];
    let entries = menu();
    for (keysym, expected_action) in cases {
        let info = entries.iter().find(|i| i.keysym == *keysym).unwrap();
        assert_eq!(info.action, *expected_action, "wrong action for {:?}", keysym);
    }
}
