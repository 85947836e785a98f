use waydoodle::actions::{
    any_menu_accels, find_accel, menu_accels, no_menu_accels, Action, FocusDirection, GlobalAccels,
    GlobalAction, GlobalTrigger, Key,
};
use waydoodle::canvas::Color;
use waydoodle::waydoodle::Tool;

#[test]
fn default_accels_cover_the_first_six_pad_buttons() {
    let accels = GlobalAccels::default();
    assert_eq!(accels.get(GlobalTrigger::PadButton(0)), Some(GlobalAction::ToggleOverlay));
    assert_eq!(accels.get(GlobalTrigger::PadButton(1)), Some(GlobalAction::CloseOverlay));
    assert_eq!(
        accels.get(GlobalTrigger::PadButton(2)),
        Some(GlobalAction::Overlay(Action::SetTool(Tool::Eraser)))
    );
    assert_eq!(
        accels.get(GlobalTrigger::PadButton(3)),
        Some(GlobalAction::Overlay(Action::SetTool(Tool::Pen(Color::red()))))
    );
    assert_eq!(
        accels.get(GlobalTrigger::PadButton(4)),
        Some(GlobalAction::Overlay(Action::SetTool(Tool::Pen(Color::green()))))
    );
    assert_eq!(
        accels.get(GlobalTrigger::PadButton(5)),
        Some(GlobalAction::Overlay(Action::SetTool(Tool::Pen(Color::magenta()))))
    );
}

#[test]
fn unbound_pad_buttons_have_no_action() {
    let accels = GlobalAccels::default();
    for button in [6, 7, 8, 42] {
        assert_eq!(accels.get(GlobalTrigger::PadButton(button)), None);
    }
}

#[test]
fn binding_a_button_replaces_its_action() {
    let mut accels = GlobalAccels::default();
    accels.bind(0, GlobalAction::CloseOverlay);
    accels.bind(9, GlobalAction::Overlay(Action::Undo));
    assert_eq!(accels.get(GlobalTrigger::PadButton(0)), Some(GlobalAction::CloseOverlay));
    assert_eq!(accels.get(GlobalTrigger::PadButton(9)), Some(GlobalAction::Overlay(Action::Undo)));
    assert_eq!(GlobalAccels::empty().get(GlobalTrigger::PadButton(0)), None);
}

#[test]
fn accel_tables_bind_the_documented_keys() {
    let any = any_menu_accels();
    assert_eq!(any.len(), 12);
    assert_eq!(find_accel(&any, Key::R), Some(Action::SetTool(Tool::Pen(Color::red()))));
    assert_eq!(find_accel(&any, Key::N), Some(Action::SetTool(Tool::Pen(Color::cyan()))));
    assert_eq!(find_accel(&any, Key::E), Some(Action::SetTool(Tool::Eraser)));
    assert_eq!(find_accel(&any, Key::Period), Some(Action::SetBackground(Color::black())));
    assert_eq!(find_accel(&any, Key::Comma), Some(Action::SetBackground(Color::white())));
    assert_eq!(find_accel(&any, Key::Slash), Some(Action::SetBackground(Color::transparent())));
    assert_eq!(find_accel(&any, Key::C), Some(Action::Clear));
    assert_eq!(find_accel(&any, Key::U), Some(Action::Undo));
    assert_eq!(find_accel(&any, Key::Space), None);

    let closed = no_menu_accels();
    assert_eq!(find_accel(&closed, Key::Space), Some(Action::OpenContextMenu));
    assert_eq!(find_accel(&closed, Key::Escape), Some(Action::HideOverlay));
    assert_eq!(find_accel(&closed, Key::F1), Some(Action::ToggleHelp));

    let open = menu_accels();
    assert_eq!(find_accel(&open, Key::Space), Some(Action::CloseContextMenu));
    assert_eq!(find_accel(&open, Key::Escape), Some(Action::CloseContextMenu));
    assert_eq!(find_accel(&open, Key::Up), Some(Action::Focus(FocusDirection::Up)));
    assert_eq!(find_accel(&open, Key::Return), Some(Action::ApplyMenuSelection));
    assert_eq!(find_accel(&open, Key::Other), None);
}

#[test]
fn action_names_are_read() {
    assert_eq!(GlobalAction::from_name("toggle-overlay"), Some(GlobalAction::ToggleOverlay));
    assert_eq!(GlobalAction::from_name("close-overlay"), Some(GlobalAction::CloseOverlay));
    assert_eq!(
        GlobalAction::from_name("hide-overlay"),
        Some(GlobalAction::Overlay(Action::HideOverlay))
    );
    assert_eq!(GlobalAction::from_name("undo"), Some(GlobalAction::Overlay(Action::Undo)));
    assert_eq!(GlobalAction::from_name("clear"), Some(GlobalAction::Overlay(Action::Clear)));
    assert_eq!(
        GlobalAction::from_name("eraser"),
        Some(GlobalAction::Overlay(Action::SetTool(Tool::Eraser)))
    );
    assert_eq!(
        GlobalAction::from_name("pen-blue"),
        Some(GlobalAction::Overlay(Action::SetTool(Tool::Pen(Color::blue()))))
    );
    assert_eq!(
        GlobalAction::from_name("pen-#ff8800"),
        Some(GlobalAction::Overlay(Action::SetTool(Tool::Pen(Color::rgb(0xff, 0x88, 0x00)))))
    );
    assert_eq!(
        GlobalAction::from_name("background-white"),
        Some(GlobalAction::Overlay(Action::SetBackground(Color::white())))
    );
}

#[test]
fn unknown_action_names_are_refused() {
    for name in ["", "nonsense", "Undo", "undo ", "pen-", "pen-orange", "pen-#ff88", "pen-#gg0000", "background"] {
        assert_eq!(GlobalAction::from_name(name), None, "{name}");
    }
}

#[test]
fn color_names_are_read() {
    assert_eq!(Color::from_name("red"), Some(Color::red()));
    assert_eq!(Color::from_name("transparent"), Some(Color::transparent()));
    assert_eq!(Color::from_name("#ff8800"), Some(Color::rgb(0xff, 0x88, 0x00)));
    assert_eq!(Color::from_name("#A0b1C2"), Some(Color::rgb(0xa0, 0xb1, 0xc2)));
    assert_eq!(Color::from_name("#ff880"), None);
    assert_eq!(Color::from_name("ff8800"), None);
    assert_eq!(Color::from_name("Red"), None);
}
