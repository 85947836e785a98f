//! Which input buttons the pointer and stylus button codes stand for.

use vstd::prelude::*;

use crate::waydoodle::InputButton;

verus! {

/// The left mouse button (linux/input-event-codes.h).
pub const BTN_LEFT: u32 = 0x110;

/// The right mouse button.
pub const BTN_RIGHT: u32 = 0x111;

/// The middle mouse button.
pub const BTN_MIDDLE: u32 = 0x112;

/// The lower stylus button.
pub const BTN_STYLUS: u32 = 0x14b;

/// The input button of a mouse button code: left is primary, right
/// secondary, middle tertiary; other buttons are ignored.
pub fn pointer_button(button: u32) -> (res: Option<InputButton>)
    ensures
        res == if button == BTN_LEFT {
            Some(InputButton::Primary)
        } else if button == BTN_RIGHT {
            Some(InputButton::Secondary)
        } else if button == BTN_MIDDLE {
            Some(InputButton::Tertiary)
        } else {
            None
        },
{
    if button == BTN_LEFT {
        Some(InputButton::Primary)
    } else if button == BTN_RIGHT {
        Some(InputButton::Secondary)
    } else if button == BTN_MIDDLE {
        Some(InputButton::Tertiary)
    } else {
        None
    }
}

/// The input button of a stylus button code: the lower stylus button is
/// tertiary, any other secondary.
pub fn stylus_button(button: u32) -> (res: InputButton)
    ensures
        res == if button == BTN_STYLUS {
            InputButton::Tertiary
        } else {
            InputButton::Secondary
        },
{
    if button == BTN_STYLUS {
        InputButton::Tertiary
    } else {
        InputButton::Secondary
    }
}

} // verus!
