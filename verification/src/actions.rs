//! Key bindings and the actions they trigger.

use std::collections::HashMap;
use vstd::prelude::*;

use crate::canvas::{color_named, Color};
use crate::text::{has_prefix, same_text, strip_prefix};
use crate::waydoodle::Tool;

verus! {

broadcast use vstd::std_specs::hash::group_hash_axioms;

/// The keys that the overlay reacts to; every other key is `Other`.
#[derive(Debug, Clone, Copy, PartialEq, Eq, Structural)]
pub enum Key {
    R,
    G,
    B,
    Y,
    M,
    N,
    E,
    C,
    U,
    Period,
    Comma,
    Slash,
    Space,
    Escape,
    Return,
    Up,
    Down,
    Left,
    Right,
    F1,
    Other,
}

/// Something the overlay can do.
#[derive(Debug, Clone, Copy, PartialEq, Eq, Structural)]
pub enum Action {
    SetTool(Tool),
    Clear,
    SetBackground(Color),
    Undo,
    OpenContextMenu,
    CloseContextMenu,
    Focus(FocusDirection),
    ApplyMenuSelection,
    HideOverlay,
    ToggleHelp,
}

/// Something that can be triggered while the overlay is absent or unfocused.
/// Unlike an [`Action`], it can create or destroy the overlay.
#[derive(Debug, Clone, Copy, PartialEq, Eq, Structural)]
pub enum GlobalAction {
    Overlay(Action),
    ToggleOverlay,
    CloseOverlay,
}

/// What triggers a [`GlobalAction`].
#[derive(Debug, Clone, Copy, PartialEq, Eq, Hash, Structural)]
pub enum GlobalTrigger {
    PadButton(u32),
}

/// A direction in which the focus moves through the context menu.
#[derive(Debug, Clone, Copy, PartialEq, Eq, Structural)]
pub enum FocusDirection {
    Up,
    Down,
    Left,
    Right,
}

/// The accels that are active whether or not the context menu is open.
pub open spec fn spec_any_menu_accels() -> Seq<(Key, Action)> {
    seq![
        (Key::R, Action::SetTool(Tool::Pen(Color::red()))),
        (Key::G, Action::SetTool(Tool::Pen(Color::green()))),
        (Key::B, Action::SetTool(Tool::Pen(Color::blue()))),
        (Key::Y, Action::SetTool(Tool::Pen(Color::yellow()))),
        (Key::M, Action::SetTool(Tool::Pen(Color::magenta()))),
        (Key::N, Action::SetTool(Tool::Pen(Color::cyan()))),
        (Key::E, Action::SetTool(Tool::Eraser)),
        (Key::Period, Action::SetBackground(Color::black())),
        (Key::Comma, Action::SetBackground(Color::white())),
        (Key::Slash, Action::SetBackground(Color::transparent())),
        (Key::C, Action::Clear),
        (Key::U, Action::Undo),
    ]
}

/// The accels that are only active when the context menu is closed.
pub open spec fn spec_no_menu_accels() -> Seq<(Key, Action)> {
    seq![
        (Key::Space, Action::OpenContextMenu),
        (Key::Escape, Action::HideOverlay),
        (Key::F1, Action::ToggleHelp),
    ]
}

/// The accels that are only active when the context menu is open.
pub open spec fn spec_menu_accels() -> Seq<(Key, Action)> {
    seq![
        (Key::Space, Action::CloseContextMenu),
        (Key::Escape, Action::CloseContextMenu),
        (Key::Right, Action::Focus(FocusDirection::Right)),
        (Key::Left, Action::Focus(FocusDirection::Left)),
        (Key::Down, Action::Focus(FocusDirection::Down)),
        (Key::Up, Action::Focus(FocusDirection::Up)),
        (Key::Return, Action::ApplyMenuSelection),
    ]
}

/// The action of the first entry of `table` bound to `key`.
pub open spec fn first_match(table: Seq<(Key, Action)>, key: Key) -> Option<Action>
    decreases table.len(),
{
    if table.len() == 0 {
        None
    } else if table[0].0 == key {
        Some(table[0].1)
    } else {
        first_match(table.drop_first(), key)
    }
}

/// The accels that are active whether or not the context menu is open.
pub fn any_menu_accels() -> (res: Vec<(Key, Action)>)
    ensures
        res@ == spec_any_menu_accels(),
{
    let res = vec![
        (Key::R, Action::SetTool(Tool::Pen(Color::red()))),
        (Key::G, Action::SetTool(Tool::Pen(Color::green()))),
        (Key::B, Action::SetTool(Tool::Pen(Color::blue()))),
        (Key::Y, Action::SetTool(Tool::Pen(Color::yellow()))),
        (Key::M, Action::SetTool(Tool::Pen(Color::magenta()))),
        (Key::N, Action::SetTool(Tool::Pen(Color::cyan()))),
        (Key::E, Action::SetTool(Tool::Eraser)),
        (Key::Period, Action::SetBackground(Color::black())),
        (Key::Comma, Action::SetBackground(Color::white())),
        (Key::Slash, Action::SetBackground(Color::transparent())),
        (Key::C, Action::Clear),
        (Key::U, Action::Undo),
    ];
    assert(res@ =~= spec_any_menu_accels());
    res
}

/// The accels that are only active when the context menu is closed.
pub fn no_menu_accels() -> (res: Vec<(Key, Action)>)
    ensures
        res@ == spec_no_menu_accels(),
{
    let res = vec![
        (Key::Space, Action::OpenContextMenu),
        (Key::Escape, Action::HideOverlay),
        (Key::F1, Action::ToggleHelp),
    ];
    assert(res@ =~= spec_no_menu_accels());
    res
}

/// The accels that are only active when the context menu is open.
pub fn menu_accels() -> (res: Vec<(Key, Action)>)
    ensures
        res@ == spec_menu_accels(),
{
    let res = vec![
        (Key::Space, Action::CloseContextMenu),
        (Key::Escape, Action::CloseContextMenu),
        (Key::Right, Action::Focus(FocusDirection::Right)),
        (Key::Left, Action::Focus(FocusDirection::Left)),
        (Key::Down, Action::Focus(FocusDirection::Down)),
        (Key::Up, Action::Focus(FocusDirection::Up)),
        (Key::Return, Action::ApplyMenuSelection),
    ];
    assert(res@ =~= spec_menu_accels());
    res
}

/// Looks `key` up in `table`, returning the action of the first entry bound
/// to it.
pub fn find_accel(table: &Vec<(Key, Action)>, key: Key) -> (res: Option<Action>)
    ensures
        res == first_match(table@, key),
{
    let mut i: usize = 0;
    assert(table@.skip(0) =~= table@);
    while i < table.len()
        invariant
            i <= table.len(),
            first_match(table@, key) == first_match(table@.skip(i as int), key),
        decreases table.len() - i,
    {
        assert(table@.skip(i as int).drop_first() =~= table@.skip(i + 1));
        if table[i].0 == key {
            return Some(table[i].1);
        }
        i = i + 1;
    }
    None
}

/// The default bindings of the tablet pad buttons.
pub open spec fn default_global_accel_map() -> Map<u32, GlobalAction> {
    map![
        0u32 => GlobalAction::ToggleOverlay,
        1u32 => GlobalAction::CloseOverlay,
        2u32 => GlobalAction::Overlay(Action::SetTool(Tool::Eraser)),
        3u32 => GlobalAction::Overlay(Action::SetTool(Tool::Pen(Color::red()))),
        4u32 => GlobalAction::Overlay(Action::SetTool(Tool::Pen(Color::green()))),
        5u32 => GlobalAction::Overlay(Action::SetTool(Tool::Pen(Color::magenta()))),
    ]
}

/// Accels that are active even when the overlay is absent or unfocused,
/// keyed by pad button number. Owned rather than fixed, so that they can be
/// loaded from a configuration file.
#[derive(Debug, Clone, PartialEq, Eq)]
pub struct GlobalAccels(pub HashMap<u32, GlobalAction>);

impl View for GlobalAccels {
    type V = Map<u32, GlobalAction>;

    open spec fn view(&self) -> Map<u32, GlobalAction> {
        self.0@
    }
}

/// The action bound to `trigger` in `accels`, if any.
pub open spec fn accel_for(accels: Map<u32, GlobalAction>, trigger: GlobalTrigger) -> Option<
    GlobalAction,
> {
    match trigger {
        GlobalTrigger::PadButton(b) => if accels.contains_key(b) {
            Some(accels[b])
        } else {
            None
        },
    }
}

impl GlobalAccels {
    /// The action bound to `trigger`, if any.
    pub fn get(&self, trigger: GlobalTrigger) -> (res: Option<GlobalAction>)
        ensures
            res == accel_for(self@, trigger),
    {
        match trigger {
            GlobalTrigger::PadButton(b) => match self.0.get(&b) {
                Some(action) => Some(*action),
                None => None,
            },
        }
    }

    /// Binds `button` to `action`, replacing any earlier binding.
    pub fn bind(&mut self, button: u32, action: GlobalAction)
        ensures
            final(self)@ == old(self)@.insert(button, action),
    {
        self.0.insert(button, action);
    }

    /// No bindings at all.
    pub fn empty() -> (res: Self)
        ensures
            res@ == Map::<u32, GlobalAction>::empty(),
    {
        GlobalAccels(HashMap::new())
    }
}

impl Default for GlobalAccels {
    /// The first six pad buttons toggle and close the overlay, pick the
    /// eraser and the red, green and magenta pens.
    fn default() -> (res: Self)
        ensures
            res@ == default_global_accel_map(),
    {
        let mut accels = GlobalAccels::empty();
        accels.bind(0, GlobalAction::ToggleOverlay);
        accels.bind(1, GlobalAction::CloseOverlay);
        accels.bind(2, GlobalAction::Overlay(Action::SetTool(Tool::Eraser)));
        accels.bind(3, GlobalAction::Overlay(Action::SetTool(Tool::Pen(Color::red()))));
        accels.bind(4, GlobalAction::Overlay(Action::SetTool(Tool::Pen(Color::green()))));
        accels.bind(5, GlobalAction::Overlay(Action::SetTool(Tool::Pen(Color::magenta()))));
        assert(accels@ =~= default_global_accel_map());
        accels
    }
}

/// The global action a configuration names: `toggle-overlay`,
/// `close-overlay`, `hide-overlay`, `undo`, `clear`, `eraser`, `pen-` and a
/// color, or `background-` and a color, the color as [`color_named`] reads it.
pub open spec fn global_action_named(name: Seq<char>) -> Option<GlobalAction> {
    if name == "toggle-overlay"@ {
        Some(GlobalAction::ToggleOverlay)
    } else if name == "close-overlay"@ {
        Some(GlobalAction::CloseOverlay)
    } else if name == "hide-overlay"@ {
        Some(GlobalAction::Overlay(Action::HideOverlay))
    } else if name == "undo"@ {
        Some(GlobalAction::Overlay(Action::Undo))
    } else if name == "clear"@ {
        Some(GlobalAction::Overlay(Action::Clear))
    } else if name == "eraser"@ {
        Some(GlobalAction::Overlay(Action::SetTool(Tool::Eraser)))
    } else if has_prefix(name, "pen-"@) {
        match color_named(name.skip("pen-"@.len() as int)) {
            Some(c) => Some(GlobalAction::Overlay(Action::SetTool(Tool::Pen(c)))),
            None => None,
        }
    } else if has_prefix(name, "background-"@) {
        match color_named(name.skip("background-"@.len() as int)) {
            Some(c) => Some(GlobalAction::Overlay(Action::SetBackground(c))),
            None => None,
        }
    } else {
        None
    }
}

impl GlobalAction {
    /// The global action that `name` names, if any: see
    /// [`global_action_named`].
    pub fn from_name(name: &str) -> (res: Option<GlobalAction>)
        ensures
            res == global_action_named(name@),
    {
        if same_text(name, "toggle-overlay") {
            return Some(GlobalAction::ToggleOverlay);
        }
        if same_text(name, "close-overlay") {
            return Some(GlobalAction::CloseOverlay);
        }
        if same_text(name, "hide-overlay") {
            return Some(GlobalAction::Overlay(Action::HideOverlay));
        }
        if same_text(name, "undo") {
            return Some(GlobalAction::Overlay(Action::Undo));
        }
        if same_text(name, "clear") {
            return Some(GlobalAction::Overlay(Action::Clear));
        }
        if same_text(name, "eraser") {
            return Some(GlobalAction::Overlay(Action::SetTool(Tool::Eraser)));
        }
        if let Some(color) = strip_prefix(name, "pen-") {
            return match Color::from_name(color) {
                Some(c) => Some(GlobalAction::Overlay(Action::SetTool(Tool::Pen(c)))),
                None => None,
            };
        }
        if let Some(color) = strip_prefix(name, "background-") {
            return match Color::from_name(color) {
                Some(c) => Some(GlobalAction::Overlay(Action::SetBackground(c))),
                None => None,
            };
        }
        None
    }
}

} // verus!
