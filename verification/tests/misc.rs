use waydoodle::canvas::Point;
use waydoodle::tablet::{find_tablet, tablets_holding};
use waydoodle::input::{pointer_button, stylus_button, BTN_LEFT, BTN_MIDDLE, BTN_RIGHT, BTN_STYLUS};
use waydoodle::notify::Notifications;
use waydoodle::text::{same_text, strip_prefix};
use waydoodle::waydoodle::InputButton;

#[test]
fn mouse_buttons_map_to_input_buttons() {
    assert_eq!(pointer_button(BTN_LEFT), Some(InputButton::Primary));
    assert_eq!(pointer_button(BTN_RIGHT), Some(InputButton::Secondary));
    assert_eq!(pointer_button(BTN_MIDDLE), Some(InputButton::Tertiary));
    assert_eq!(pointer_button(0x113), None);
    assert_eq!(stylus_button(BTN_STYLUS), InputButton::Tertiary);
    assert_eq!(stylus_button(0x14c), InputButton::Secondary);
}

#[test]
fn notifications_can_be_turned_off() {
    let mut n = Notifications::new();
    assert!(n.show());
    n.set_enabled(false);
    assert!(!n.show());
}

#[test]
fn positions_round_toward_zero_to_pixels() {
    let p = Point { x: 10 * 256 + 255, y: -(3 * 256 + 1) }.pixel();
    assert_eq!((p.x, p.y), (10, -3));
}

#[test]
fn prefixes_are_stripped() {
    assert_eq!(strip_prefix("pen-red", "pen-"), Some("red"));
    assert_eq!(strip_prefix("pe", "pen-"), None);
    assert_eq!(strip_prefix("pan-red", "pen-"), None);
    assert!(same_text("undo", "undo"));
    assert!(!same_text("undo", "undone"));
}

#[test]
fn tools_go_to_the_first_free_tablet_and_are_found_again() {
    let tools = vec![Some(7), None, Some(9), None, Some(7)];
    assert_eq!(find_tablet(&tools, None), Some(1));
    assert_eq!(find_tablet(&tools, Some(9)), Some(2));
    assert_eq!(find_tablet(&tools, Some(7)), Some(0));
    assert_eq!(find_tablet(&tools, Some(3)), None);
    assert_eq!(find_tablet(&vec![Some(1)], None), None);
    assert_eq!(tablets_holding(&tools, 7), vec![0, 4]);
    assert_eq!(tablets_holding(&tools, 3), Vec::<usize>::new());
}
