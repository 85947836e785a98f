//! The small application model: the current tool and whether the overlay is
//! shown. Every method returns [`Command`] values describing what the view
//! should do, so that the model needs no graphical dependency.

use vstd::prelude::*;

use crate::actions::Key;
use crate::input::BTN_LEFT;

verus! {

/// A pen color of the model.
#[derive(Debug, Clone, Copy, PartialEq, Eq, Structural)]
pub enum Color {
    Red,
    Green,
    Blue,
    Yellow,
}

/// The tool used to draw.
#[derive(Debug, Clone, Copy, PartialEq, Eq, Structural)]
pub enum Tool {
    Pen(Color),
    Eraser,
}

/// A position on the surface, in units of 1/256 pixel (the fixed-point
/// format in which Wayland reports positions).
#[derive(Debug, Clone, Copy, PartialEq, Eq, Structural)]
pub struct Point {
    pub x: i32,
    pub y: i32,
}

/// How a brush affects the pixels it covers.
#[derive(Debug, Clone, Copy, PartialEq, Eq, Structural)]
pub enum BrushStyle {
    Draw(Color),
    Erase,
}

/// What the view should do. Radii are in units of 1/256 pixel.
#[derive(Debug, Clone, Copy, PartialEq, Eq, Structural)]
pub enum Command {
    ShowOverlay,
    HideOverlay,
    SetCrosshairCursor,
    SetCircleCursor,
    DrawLine { style: BrushStyle, radius: u32, from: Point, to: Point },
    DrawDot { style: BrushStyle, radius: u32, center: Point },
    ClearBuffer,
}

/// Radius of the pen: 1.5 pixels, in units of 1/256 pixel.
pub const PEN_RADIUS: u32 = 384;

/// Radius of the eraser: 10 pixels, in units of 1/256 pixel.
pub const ERASER_RADIUS: u32 = 2560;

/// The cursor command that matches a tool.
pub open spec fn cursor_command_of(tool: Tool) -> Command {
    match tool {
        Tool::Pen(_) => Command::SetCrosshairCursor,
        Tool::Eraser => Command::SetCircleCursor,
    }
}

/// The brush style of a tool.
pub open spec fn brush_style_of(tool: Tool) -> BrushStyle {
    match tool {
        Tool::Pen(color) => BrushStyle::Draw(color),
        Tool::Eraser => BrushStyle::Erase,
    }
}

/// The brush radius of a tool, in units of 1/256 pixel.
pub open spec fn brush_radius_of(tool: Tool) -> u32 {
    match tool {
        Tool::Pen(_) => PEN_RADIUS,
        Tool::Eraser => ERASER_RADIUS,
    }
}

/// The state of a shown overlay.
pub struct Overlay {
    pub current_tool: Tool,
}

impl Overlay {
    /// A fresh overlay draws with the red pen.
    pub fn new() -> (res: Self)
        ensures
            res.current_tool == Tool::Pen(Color::Red),
    {
        Self { current_tool: Tool::Pen(Color::Red) }
    }

    /// Selects a tool and returns the cursor command for it.
    pub fn set_tool(&mut self, tool: Tool) -> (cmd: Command)
        ensures
            final(self).current_tool == tool,
            cmd == cursor_command_of(tool),
    {
        self.current_tool = tool;
        self.cursor_command()
    }

    /// The cursor command for the current tool.
    pub fn cursor_command(&self) -> (cmd: Command)
        ensures
            cmd == cursor_command_of(self.current_tool),
    {
        match self.current_tool {
            Tool::Pen(_) => Command::SetCrosshairCursor,
            Tool::Eraser => Command::SetCircleCursor,
        }
    }

    /// Clearing the overlay clears the whole buffer.
    pub fn clear(&self) -> (cmd: Command)
        ensures
            cmd == Command::ClearBuffer,
    {
        Command::ClearBuffer
    }

    fn brush_style(&self) -> (style: BrushStyle)
        ensures
            style == brush_style_of(self.current_tool),
    {
        match self.current_tool {
            Tool::Pen(color) => BrushStyle::Draw(color),
            Tool::Eraser => BrushStyle::Erase,
        }
    }

    fn brush_radius(&self) -> (radius: u32)
        ensures
            radius == brush_radius_of(self.current_tool),
    {
        match self.current_tool {
            Tool::Pen(_) => PEN_RADIUS,
            Tool::Eraser => ERASER_RADIUS,
        }
    }

    /// A line from `from` to `to` with the current tool.
    pub fn draw(&self, from: Point, to: Point) -> (cmd: Command)
        ensures
            cmd == (Command::DrawLine {
                style: brush_style_of(self.current_tool),
                radius: brush_radius_of(self.current_tool),
                from,
                to,
            }),
    {
        Command::DrawLine { style: self.brush_style(), radius: self.brush_radius(), from, to }
    }

    /// A dot at `center` with the current tool.
    pub fn draw_dot(&self, center: Point) -> (cmd: Command)
        ensures
            cmd == (Command::DrawDot {
                style: brush_style_of(self.current_tool),
                radius: brush_radius_of(self.current_tool),
                center,
            }),
    {
        Command::DrawDot { style: self.brush_style(), radius: self.brush_radius(), center }
    }
}

/// What toggling does: hides a shown overlay, or shows a fresh one drawing
/// with the red pen; with the commands for the view.
pub open spec fn toggled(overlay: Option<Overlay>) -> (Option<Overlay>, Seq<Command>) {
    match overlay {
        Some(_) => (None, seq![Command::HideOverlay]),
        None => (
            Some(Overlay { current_tool: Tool::Pen(Color::Red) }),
            seq![Command::ShowOverlay, Command::SetCrosshairCursor],
        ),
    }
}

/// Toggling twice hides the overlay again when there was none, and shows a
/// fresh one, drawing with the red pen, when there was one.
pub proof fn lemma_toggle_twice(overlay: Option<Overlay>)
    ensures
        toggled(toggled(overlay).0).0 == match overlay {
            Some(_) => Some(Overlay { current_tool: Tool::Pen(Color::Red) }),
            None => None::<Overlay>,
        },
{
}

/// The application: an overlay or none.
pub struct Waydoodle {
    pub overlay: Option<Overlay>,
}

impl Waydoodle {
    /// The application starts without an overlay.
    pub fn new() -> (res: Self)
        ensures
            res.overlay is None,
    {
        Self { overlay: None }
    }

    /// Hides the overlay when there is one, shows a fresh one otherwise.
    pub fn toggle_overlay(&mut self) -> (cmds: Vec<Command>)
        ensures
            (final(self).overlay, cmds@) == toggled(old(self).overlay),
    {
        if self.overlay.is_some() {
            self.hide_overlay()
        } else {
            self.show_overlay()
        }
    }

    /// Shows a fresh overlay, replacing any current one.
    pub fn show_overlay(&mut self) -> (cmds: Vec<Command>)
        ensures
            final(self).overlay == Some(Overlay { current_tool: Tool::Pen(Color::Red) }),
            cmds@ == seq![Command::ShowOverlay, Command::SetCrosshairCursor],
    {
        let overlay = Overlay::new();
        let cursor_cmd = overlay.cursor_command();
        self.overlay = Some(overlay);
        vec![Command::ShowOverlay, cursor_cmd]
    }

    /// Hides the overlay, whether or not one is shown.
    pub fn hide_overlay(&mut self) -> (cmds: Vec<Command>)
        ensures
            final(self).overlay is None,
            cmds@ == seq![Command::HideOverlay],
    {
        self.overlay = None;
        vec![Command::HideOverlay]
    }
}

/// The tool or command that a key selects in the overlay: `r`, `g`, `b`, `y`
/// pick a pen, `e` the eraser, `c` clears; other keys do nothing.
pub open spec fn key_choice(key: Key) -> Option<Option<Tool>> {
    match key {
        Key::R => Some(Some(Tool::Pen(Color::Red))),
        Key::G => Some(Some(Tool::Pen(Color::Green))),
        Key::B => Some(Some(Tool::Pen(Color::Blue))),
        Key::Y => Some(Some(Tool::Pen(Color::Yellow))),
        Key::E => Some(Some(Tool::Eraser)),
        Key::C => Some(None),
        _ => None,
    }
}

impl Waydoodle {
    /// Reacts to a key pressed over the overlay: picks a tool and returns the
    /// cursor command for it, or clears. Without an overlay, or for another
    /// key, nothing happens.
    pub fn handle_key(&mut self, key: Key) -> (cmd: Option<Command>)
        ensures
            match (old(self).overlay, key_choice(key)) {
                (Some(o), Some(Some(tool))) => final(self).overlay == Some(Overlay { current_tool: tool })
                    && cmd == Some(cursor_command_of(tool)),
                (Some(o), Some(None)) => final(self).overlay == Some(o) && cmd == Some(Command::ClearBuffer),
                _ => final(self).overlay == old(self).overlay && cmd is None,
            },
    {
        let overlay = match self.overlay.as_mut() {
            Some(o) => o,
            None => {
                return None;
            },
        };
        match key {
            Key::R => Some(overlay.set_tool(Tool::Pen(Color::Red))),
            Key::G => Some(overlay.set_tool(Tool::Pen(Color::Green))),
            Key::B => Some(overlay.set_tool(Tool::Pen(Color::Blue))),
            Key::Y => Some(overlay.set_tool(Tool::Pen(Color::Yellow))),
            Key::E => Some(overlay.set_tool(Tool::Eraser)),
            Key::C => Some(overlay.clear()),
            _ => None,
        }
    }
}

/// What the pointer did over the overlay's window.
#[derive(Debug, Clone, Copy, PartialEq, Eq, Structural)]
pub enum PointerEventKind {
    Enter,
    Leave,
    Motion,
    Press(u32),
    Release(u32),
    Axis,
}

/// Where the pointer is and whether the left button is held.
#[derive(Debug, Clone, Copy, PartialEq, Eq, Structural)]
pub struct PointerTracker {
    pub pos: Point,
    pub pressed: bool,
}

impl PointerTracker {
    /// The pointer at the origin, no button held.
    pub fn new() -> (res: Self)
        ensures
            res == (PointerTracker { pos: Point { x: 0, y: 0 }, pressed: false }),
    {
        PointerTracker { pos: Point { x: 0, y: 0 }, pressed: false }
    }

    /// Follows one pointer event at `position` and returns what to draw:
    /// moving with the left button held draws a line from the last
    /// position, pressing the left button draws a dot; both only when there
    /// is an overlay.
    pub fn on_event(&mut self, overlay: &Option<Overlay>, kind: PointerEventKind, position: Point) -> (cmd: Option<
        Command,
    >)
        ensures
            match kind {
                PointerEventKind::Enter => *final(self) == PointerTracker { pos: position, ..*old(self) }
                    && cmd is None,
                PointerEventKind::Leave => *final(self) == PointerTracker { pressed: false, ..*old(self) }
                    && cmd is None,
                PointerEventKind::Motion => *final(self) == PointerTracker { pos: position, ..*old(self) }
                    && cmd == (if old(self).pressed && overlay is Some {
                    Some(
                        Command::DrawLine {
                            style: brush_style_of(overlay->0.current_tool),
                            radius: brush_radius_of(overlay->0.current_tool),
                            from: old(self).pos,
                            to: position,
                        },
                    )
                } else {
                    None
                }),
                PointerEventKind::Press(button) => if button == BTN_LEFT {
                    *final(self) == PointerTracker { pos: position, pressed: true } && cmd == (if overlay is Some {
                        Some(
                            Command::DrawDot {
                                style: brush_style_of(overlay->0.current_tool),
                                radius: brush_radius_of(overlay->0.current_tool),
                                center: position,
                            },
                        )
                    } else {
                        None
                    })
                } else {
                    *final(self) == *old(self) && cmd is None
                },
                PointerEventKind::Release(button) => *final(self) == (if button == BTN_LEFT {
                    PointerTracker { pressed: false, ..*old(self) }
                } else {
                    *old(self)
                }) && cmd is None,
                PointerEventKind::Axis => *final(self) == *old(self) && cmd is None,
            },
    {
        match kind {
            PointerEventKind::Enter => {
                self.pos = position;
                None
            },
            PointerEventKind::Leave => {
                self.pressed = false;
                None
            },
            PointerEventKind::Motion => {
                let prev = self.pos;
                self.pos = position;
                if self.pressed {
                    match overlay {
                        Some(o) => Some(o.draw(prev, position)),
                        None => None,
                    }
                } else {
                    None
                }
            },
            PointerEventKind::Press(button) => {
                if button == BTN_LEFT {
                    self.pressed = true;
                    self.pos = position;
                    match overlay {
                        Some(o) => Some(o.draw_dot(position)),
                        None => None,
                    }
                } else {
                    None
                }
            },
            PointerEventKind::Release(button) => {
                if button == BTN_LEFT {
                    self.pressed = false;
                }
                None
            },
            PointerEventKind::Axis => None,
        }
    }
}

} // verus!
