use waydoodle::pad::{button_number, is_pad_button, pad_buttons, pressed_buttons};

#[test]
fn pad_buttons_are_recognized() {
    for code in [0x100, 0x108, 0x109, 0x126, 0x130, 0x13f] {
        assert!(is_pad_button(code), "{code:#x}");
    }
    // BTN_LEFT, BTN_RIGHT and BTN_STYLUS are not pad buttons.
    for code in [0x110, 0x111, 0x14b] {
        assert!(!is_pad_button(code), "{code:#x}");
    }
}

#[test]
fn buttons_are_numbered_by_key_code_order() {
    // A tablet with contiguous key codes, like the Huion H640P.
    let buttons: Vec<u16> = (0x100..=0x108).collect();
    assert_eq!(button_number(&buttons, 0x100), Some(0));
    assert_eq!(button_number(&buttons, 0x105), Some(5));
    assert_eq!(button_number(&buttons, 0x109), None);

    // A tablet with gaps between them.
    let buttons = [0x100, 0x101, 0x130];
    assert_eq!(button_number(&buttons, 0x130), Some(2));
}

#[test]
fn only_pad_button_codes_are_kept() {
    let supported = vec![0x0f, 0x100, 0x110, 0x12a, 0x14b, 0x13f, 0x140];
    assert_eq!(pad_buttons(&supported), vec![0x100, 0x12a, 0x13f]);
}

#[test]
fn only_presses_of_known_buttons_count() {
    let buttons = [0x100, 0x101, 0x130];
    // A press, a release, an auto-repeat, a press of an unknown key, and
    // another press.
    let events = vec![(0x101, 1), (0x101, 0), (0x130, 2), (0x110, 1), (0x130, 1)];
    assert_eq!(pressed_buttons(&buttons, &events), vec![1, 2]);
}
