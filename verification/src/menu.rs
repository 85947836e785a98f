//! The entries of the help screen: each key binding with its label.

use vstd::prelude::*;

use crate::actions::Key;
use crate::canvas::Color;
use crate::waydoodle::Tool;

verus! {

/// An action that a key triggers.
#[derive(Debug, Clone, Copy, PartialEq, Eq, Structural)]
pub enum KeyAction {
    SetTool(Tool),
    Clear,
    SetBackground(Color),
    Undo,
    HideOverlay,
}

/// A key binding as shown to the user.
#[derive(Debug, Clone, Copy, PartialEq, Eq)]
pub struct MenuItem {
    pub action: KeyAction,
    pub keysym: Key,
    pub key_label: &'static str,
    pub desc: &'static str,
}

/// The color shown beside a binding: that of a pen or a background.
pub open spec fn spec_swatch(action: KeyAction) -> Option<Color> {
    match action {
        KeyAction::SetTool(Tool::Pen(color)) => Some(color),
        KeyAction::SetBackground(color) => Some(color),
        _ => None,
    }
}

impl MenuItem {
    /// The color shown beside the binding, for pens and backgrounds.
    pub fn swatch(&self) -> (res: Option<Color>)
        ensures
            res == spec_swatch(self.action),
    {
        match self.action {
            KeyAction::SetTool(Tool::Pen(color)) => Some(color),
            KeyAction::SetBackground(color) => Some(color),
            _ => None,
        }
    }
}

/// The key bindings with their labels, in the order they are shown.
pub open spec fn spec_menu() -> Seq<MenuItem> {
    seq![
        MenuItem { action: KeyAction::SetTool(Tool::Pen(Color::red())), keysym: Key::R, key_label: "R", desc: "Red pen" },
        MenuItem { action: KeyAction::SetTool(Tool::Pen(Color::green())), keysym: Key::G, key_label: "G", desc: "Green pen" },
        MenuItem { action: KeyAction::SetTool(Tool::Pen(Color::blue())), keysym: Key::B, key_label: "B", desc: "Blue pen" },
        MenuItem { action: KeyAction::SetTool(Tool::Pen(Color::yellow())), keysym: Key::Y, key_label: "Y", desc: "Yellow pen" },
        MenuItem { action: KeyAction::SetTool(Tool::Pen(Color::magenta())), keysym: Key::M, key_label: "M", desc: "Magenta pen" },
        MenuItem { action: KeyAction::SetTool(Tool::Pen(Color::cyan())), keysym: Key::N, key_label: "N", desc: "Cyan pen" },
        MenuItem { action: KeyAction::SetTool(Tool::Eraser), keysym: Key::E, key_label: "E", desc: "Eraser" },
        MenuItem { action: KeyAction::Clear, keysym: Key::C, key_label: "C", desc: "Clear screen" },
        MenuItem { action: KeyAction::SetBackground(Color::black()), keysym: Key::Period, key_label: ".", desc: "Black background" },
        MenuItem { action: KeyAction::SetBackground(Color::white()), keysym: Key::Comma, key_label: ",", desc: "White background" },
        MenuItem { action: KeyAction::SetBackground(Color::transparent()), keysym: Key::Slash, key_label: "/", desc: "Transparent background" },
        MenuItem { action: KeyAction::Undo, keysym: Key::U, key_label: "U", desc: "Undo" },
        MenuItem { action: KeyAction::HideOverlay, keysym: Key::Escape, key_label: "Esc", desc: "Hide overlay" },
    ]
}

/// The key bindings with their labels, in the order they are shown.
pub fn menu() -> (res: Vec<MenuItem>)
    ensures
        res@ == spec_menu(),
{
    let res = vec![
        MenuItem { action: KeyAction::SetTool(Tool::Pen(Color::red())), keysym: Key::R, key_label: "R", desc: "Red pen" },
        MenuItem { action: KeyAction::SetTool(Tool::Pen(Color::green())), keysym: Key::G, key_label: "G", desc: "Green pen" },
        MenuItem { action: KeyAction::SetTool(Tool::Pen(Color::blue())), keysym: Key::B, key_label: "B", desc: "Blue pen" },
        MenuItem { action: KeyAction::SetTool(Tool::Pen(Color::yellow())), keysym: Key::Y, key_label: "Y", desc: "Yellow pen" },
        MenuItem { action: KeyAction::SetTool(Tool::Pen(Color::magenta())), keysym: Key::M, key_label: "M", desc: "Magenta pen" },
        MenuItem { action: KeyAction::SetTool(Tool::Pen(Color::cyan())), keysym: Key::N, key_label: "N", desc: "Cyan pen" },
        MenuItem { action: KeyAction::SetTool(Tool::Eraser), keysym: Key::E, key_label: "E", desc: "Eraser" },
        MenuItem { action: KeyAction::Clear, keysym: Key::C, key_label: "C", desc: "Clear screen" },
        MenuItem { action: KeyAction::SetBackground(Color::black()), keysym: Key::Period, key_label: ".", desc: "Black background" },
        MenuItem { action: KeyAction::SetBackground(Color::white()), keysym: Key::Comma, key_label: ",", desc: "White background" },
        MenuItem { action: KeyAction::SetBackground(Color::transparent()), keysym: Key::Slash, key_label: "/", desc: "Transparent background" },
        MenuItem { action: KeyAction::Undo, keysym: Key::U, key_label: "U", desc: "Undo" },
        MenuItem { action: KeyAction::HideOverlay, keysym: Key::Escape, key_label: "Esc", desc: "Hide overlay" },
    ];
    assert(res@ =~= spec_menu());
    res
}

} // verus!
