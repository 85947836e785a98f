//! Which key codes of a tablet pad are buttons, and how they are numbered.
//! Reading the device belongs to the application.

use vstd::prelude::*;

verus! {

/// Whether a key code is one that tablet pad buttons use: `BTN_0`-`BTN_9`,
/// `BTN_BASE`-`BTN_BASE6` and `BTN_A`-`BTN_THUMBR`.
pub open spec fn spec_is_pad_button(code: u16) -> bool {
    (0x100 <= code <= 0x109) || (0x126 <= code <= 0x12b) || (0x130 <= code <= 0x13f)
}

/// Whether a key code is one that tablet pad buttons use.
pub fn is_pad_button(code: u16) -> (res: bool)
    ensures
        res == spec_is_pad_button(code),
{
    (0x100 <= code && code <= 0x109) || (0x126 <= code && code <= 0x12b) || (0x130 <= code && code
        <= 0x13f)
}

/// The pad button key codes among a device's supported keys, in order.
pub fn pad_buttons(supported: &Vec<u16>) -> (res: Vec<u16>)
    ensures
        res@ == supported@.filter(|c: u16| spec_is_pad_button(c)),
{
    let mut res: Vec<u16> = Vec::new();
    let mut i: usize = 0;
    while i < supported.len()
        invariant
            i <= supported.len(),
            res@ == supported@.take(i as int).filter(|c: u16| spec_is_pad_button(c)),
        decreases supported.len() - i,
    {
        proof {
            assert(supported@.take(i + 1).drop_last() =~= supported@.take(i as int));
            reveal(Seq::filter);
        }
        if is_pad_button(supported[i]) {
            res.push(supported[i]);
        }
        i = i + 1;
    }
    assert(supported@.take(supported@.len() as int) =~= supported@);
    res
}

/// The index of the first occurrence of `code`, if any.
pub open spec fn first_index(buttons: Seq<u16>, code: u16) -> Option<int>
    decreases buttons.len(),
{
    if buttons.len() == 0 {
        None
    } else if buttons.last() == code && !buttons.drop_last().contains(code) {
        Some(buttons.len() - 1)
    } else if buttons.drop_last().contains(code) {
        first_index(buttons.drop_last(), code)
    } else {
        None
    }
}

/// A button is identified by the index of its key code among the pad's
/// buttons (in ascending order), which is also how libinput numbers pad
/// buttons.
pub fn button_number(buttons: &[u16], code: u16) -> (res: Option<u32>)
    ensures
        res == spec_button_number(buttons@, code),
{
    let mut i: usize = 0;
    while i < buttons.len()
        invariant
            i <= buttons@.len(),
            forall|k: int| 0 <= k < i ==> buttons@[k] != code,
        decreases buttons.len() - i,
    {
        if buttons[i] == code {
            if i <= 0xffff_ffff {
                proof {
                    lemma_number_is_first(buttons@, code, i as int);
                }
                return Some(i as u32);
            } else {
                assert(!exists|n: int| 0 <= n < buttons@.len() && n <= u32::MAX && buttons@[n] == code
                    && forall|k: int| 0 <= k < n ==> buttons@[k] != code);
                return None;
            }
        }
        i = i + 1;
    }
    None
}

/// The buttons pressed in a batch of key events, given as (key code,
/// value) pairs: a value of 1 is a press, 0 a release and 2 auto-repeat.
/// Keys that are not buttons of the pad are skipped.
pub fn pressed_buttons(buttons: &[u16], events: &Vec<(u16, i32)>) -> (res: Vec<u32>)
    ensures
        res@ == pressed_spec(buttons@, events@),
{
    let mut res: Vec<u32> = Vec::new();
    let mut i: usize = 0;
    while i < events.len()
        invariant
            i <= events.len(),
            res@ == pressed_spec(buttons@, events@.take(i as int)),
        decreases events.len() - i,
    {
        assert(events@.take(i + 1).drop_last() =~= events@.take(i as int));
        let (code, value) = events[i];
        if value == 1 {
            match button_number(buttons, code) {
                Some(button) => {
                    res.push(button);
                },
                None => {},
            }
        }
        i = i + 1;
    }
    assert(events@.take(events@.len() as int) =~= events@);
    res
}

/// The number of the button with key code `code`, when it is a button of
/// the pad numbered within `u32`.
pub open spec fn spec_button_number(buttons: Seq<u16>, code: u16) -> Option<u32> {
    if exists|n: int| 0 <= n < buttons.len() && n <= u32::MAX && buttons[n] == code && forall|k: int|
        0 <= k < n ==> buttons[k] != code {
        Some(
            (choose|n: int|
                0 <= n < buttons.len() && n <= u32::MAX && buttons[n] == code && forall|k: int|
                    0 <= k < n ==> buttons[k] != code) as u32,
        )
    } else {
        None
    }
}

/// The buttons pressed in a batch of key events.
pub open spec fn pressed_spec(buttons: Seq<u16>, events: Seq<(u16, i32)>) -> Seq<u32>
    decreases events.len(),
{
    if events.len() == 0 {
        seq![]
    } else {
        let prev = pressed_spec(buttons, events.drop_last());
        let (code, value) = events.last();
        if value == 1 {
            match spec_button_number(buttons, code) {
                Some(n) => prev.push(n),
                None => prev,
            }
        } else {
            prev
        }
    }
}

proof fn lemma_number_is_first(buttons: Seq<u16>, code: u16, n: int)
    requires
        0 <= n < buttons.len(),
        n <= u32::MAX,
        buttons[n] == code,
        forall|k: int| 0 <= k < n ==> buttons[k] != code,
    ensures
        spec_button_number(buttons, code) == Some(n as u32),
{
    let m = choose|m: int|
        0 <= m < buttons.len() && m <= u32::MAX && buttons[m] == code && forall|k: int|
            0 <= k < m ==> buttons[k] != code;
    assert(0 <= m < buttons.len() && m <= u32::MAX && buttons[m] == code && forall|k: int|
            0 <= k < m ==> buttons[k] != code);
    if m < n {
        assert(buttons[m] != code);
    }
    if n < m {
        assert(buttons[n] != code);
    }
}

} // verus!
