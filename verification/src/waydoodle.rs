//! The drawing state of a shown overlay: tools, strokes, history and damage.

use vstd::prelude::*;

use crate::actions::{
    any_menu_accels, find_accel, first_match, menu_accels, no_menu_accels, spec_any_menu_accels,
    spec_menu_accels, spec_no_menu_accels, Action, Key,
};
use crate::canvas::{Color, Point, Rect};
use crate::drawing::{ceil_px, ceil_px_exec, floor_px, floor_px_exec};
use crate::ui::{
    action_at, first_hit, is_item_action, lemma_menu_wf, lemma_same_layout_refl, lemma_same_layout_trans, lemma_selection_is_item, menu_selection, metrics_ok, ui_effect, UI,
};

verus! {

/// A button of the pointer or of the tablet stylus.
#[derive(Debug, Clone, Copy, PartialEq, Eq, Structural)]
pub enum InputButton {
    /// Left mouse button or stylus tip.
    Primary,
    /// Right mouse button or a stylus button.
    Secondary,
    /// Middle mouse button or the lower stylus button.
    Tertiary,
}

/// The tool used to draw.
#[derive(Debug, Clone, Copy, PartialEq, Eq, Structural)]
pub enum Tool {
    Pen(Color),
    Eraser,
}

/// The cursor shown over the overlay.
#[derive(Debug, Clone, Copy, PartialEq, Eq, Structural)]
pub enum CursorShape {
    Crosshair,
    Circle,
}

impl Default for Tool {
    /// The red pen.
    fn default() -> (res: Self)
        ensures
            res == Tool::Pen(Color::red()),
    {
        Tool::Pen(Color::red())
    }
}

/// Radius of the pen: 1.5 pixels, in units of 1/256 pixel.
pub const PEN_RADIUS: u32 = 384;

/// Radius of the eraser: 10 pixels, in units of 1/256 pixel.
pub const ERASER_RADIUS: u32 = 2560;

impl Tool {
    /// The brush radius, in units of 1/256 pixel.
    pub open spec fn spec_brush_radius(self) -> u32 {
        match self {
            Tool::Pen(_) => PEN_RADIUS,
            Tool::Eraser => ERASER_RADIUS,
        }
    }

    /// The color a tool leaves on a canvas with the given background.
    pub open spec fn spec_pixel_color(self, background_color: Color) -> Color {
        match self {
            Tool::Pen(color) => color,
            Tool::Eraser => background_color,
        }
    }

    /// The cursor shape of a tool.
    pub open spec fn spec_cursor_shape(self) -> CursorShape {
        match self {
            Tool::Pen(_) => CursorShape::Crosshair,
            Tool::Eraser => CursorShape::Circle,
        }
    }

    /// The brush radius, in units of 1/256 pixel: 1.5 pixels for a pen, 10
    /// for the eraser.
    pub fn brush_radius(self) -> (res: u32)
        ensures
            res == self.spec_brush_radius(),
    {
        match self {
            Tool::Pen(_) => PEN_RADIUS,
            Tool::Eraser => ERASER_RADIUS,
        }
    }

    /// A pen paints its color; the eraser paints the background.
    pub fn pixel_color(self, background_color: Color) -> (res: Color)
        ensures
            res == self.spec_pixel_color(background_color),
    {
        match self {
            Tool::Pen(color) => color,
            Tool::Eraser => background_color,
        }
    }

    /// A crosshair for a pen, a circle for the eraser.
    pub fn cursor_shape(self) -> (res: CursorShape)
        ensures
            res == self.spec_cursor_shape(),
    {
        match self {
            Tool::Pen(_) => CursorShape::Crosshair,
            Tool::Eraser => CursorShape::Circle,
        }
    }
}


/// A line drawn with one press of a button.
#[derive(Debug, Clone, PartialEq, Eq)]
pub struct Stroke {
    pub color: Color,
    /// In units of 1/256 pixel.
    pub brush_radius: u32,
    pub points: Vec<Point>,
}

/// A stroke as a mathematical value.
pub ghost struct StrokeView {
    pub color: Color,
    pub brush_radius: u32,
    pub points: Seq<Point>,
}

impl View for Stroke {
    type V = StrokeView;

    open spec fn view(&self) -> StrokeView {
        StrokeView { color: self.color, brush_radius: self.brush_radius, points: self.points@ }
    }
}

/// Something that changed the drawing, in the order it happened.
#[derive(Debug, Clone, PartialEq, Eq)]
pub enum HistoryItem {
    Stroke(Stroke),
    Clear(Color),
}

/// A history item as a mathematical value.
pub ghost enum HistoryEntry {
    Stroke(StrokeView),
    Clear(Color),
}

impl View for HistoryItem {
    type V = HistoryEntry;

    open spec fn view(&self) -> HistoryEntry {
        match self {
            HistoryItem::Stroke(s) => HistoryEntry::Stroke(s@),
            HistoryItem::Clear(c) => HistoryEntry::Clear(*c),
        }
    }
}

/// An operation on the overlay's canvas, which the renderer performs.
/// Radii are in units of 1/256 pixel.
#[derive(Debug, Clone, Copy, PartialEq, Eq, Structural)]
pub enum CanvasOp {
    /// Paint the whole canvas with a color.
    Fill(Color),
    /// Make the whole canvas transparent.
    Clear,
    DrawCircle { center: Point, radius: u32, color: Color },
    DrawLine { from: Point, to: Point, radius: u32, color: Color },
}

/// The operations that draw a stroke: a dot at its first point, then a line
/// through each pair of consecutive points.
pub open spec fn stroke_ops(s: StrokeView) -> Seq<CanvasOp> {
    if s.points.len() == 0 {
        seq![]
    } else {
        seq![CanvasOp::DrawCircle { center: s.points[0], radius: s.brush_radius, color: s.color }]
            + Seq::new(
            (s.points.len() - 1) as nat,
            |i: int|
                CanvasOp::DrawLine {
                    from: s.points[i],
                    to: s.points[i + 1],
                    radius: s.brush_radius,
                    color: s.color,
                },
        )
    }
}

/// The operations that redo one history entry.
pub open spec fn entry_ops(e: HistoryEntry) -> Seq<CanvasOp> {
    match e {
        HistoryEntry::Stroke(s) => stroke_ops(s),
        HistoryEntry::Clear(c) => seq![CanvasOp::Fill(c)],
    }
}

/// The operations that redo a whole history, in order.
pub open spec fn replay(history: Seq<HistoryEntry>) -> Seq<CanvasOp>
    decreases history.len(),
{
    if history.len() == 0 {
        seq![]
    } else {
        replay(history.drop_last()) + entry_ops(history.last())
    }
}

/// The history as values.
pub open spec fn history_view(history: Seq<HistoryItem>) -> Seq<HistoryEntry> {
    history.map_values(|h: HistoryItem| h@)
}

/// The drawing state of an overlay, apart from its user interface and
/// damage.
pub ghost struct OverlayData {
    pub width: i32,
    pub height: i32,
    pub current_stroke: Option<StrokeView>,
    pub background_color: Color,
    pub primary_tool: Tool,
    pub override_tool: Option<Tool>,
    pub history: Seq<HistoryEntry>,
    pub keep_open: bool,
    pub help_shown: bool,
}

/// What an action does to the drawing state, and the canvas operations it
/// performs. Actions on the menu leave the drawing alone.
pub open spec fn apply_data(d: OverlayData, action: Action) -> (OverlayData, Seq<CanvasOp>) {
    match action {
        Action::SetTool(tool) => (OverlayData { primary_tool: tool, ..d }, seq![]),
        Action::Clear => (
            OverlayData { history: d.history.push(HistoryEntry::Clear(d.background_color)), ..d },
            seq![CanvasOp::Fill(d.background_color)],
        ),
        Action::SetBackground(color) => if d.background_color != color {
            (
                OverlayData {
                    background_color: color,
                    history: d.history.push(HistoryEntry::Clear(color)),
                    ..d
                },
                seq![CanvasOp::Fill(color)],
            )
        } else {
            (d, seq![])
        },
        Action::Undo => if d.history.len() > 0 {
            (
                OverlayData { history: d.history.drop_last(), ..d },
                seq![CanvasOp::Clear] + replay(d.history.drop_last()),
            )
        } else {
            (d, seq![])
        },
        Action::HideOverlay => (OverlayData { keep_open: false, ..d }, seq![]),
        Action::ToggleHelp => (OverlayData { help_shown: !d.help_shown, ..d }, seq![]),
        _ => (d, seq![]),
    }
}

/// The action bound to `key`: the accels that always apply come first, then
/// those for an open or a closed menu.
pub open spec fn spec_match_accel(menu_open: bool, key: Key) -> Option<Action> {
    first_match(
        spec_any_menu_accels() + if menu_open {
            spec_menu_accels()
        } else {
            spec_no_menu_accels()
        },
        key,
    )
}

/// Whether a rectangle can take part in [`OverlayState::take_damage`]
/// without overflow: it starts at non-negative coordinates and ends within
/// `i32`.
pub open spec fn rect_fits(r: Rect) -> bool {
    0 <= r.x && 0 <= r.y && r.x + r.width <= i32::MAX && r.y + r.height <= i32::MAX
}

/// Whether [`OverlayState::mark_dirty`] can take `r`: see [`rect_fits`].
pub fn damage_fits(r: Rect) -> (res: bool)
    ensures
        res == rect_fits(r),
{
    0 <= r.x && 0 <= r.y && r.x as i64 + r.width as i64 <= i32::MAX as i64 && r.y as i64 + r.height as i64
        <= i32::MAX as i64
}

/// The damage list with `r` recorded, when it can take part in
/// [`OverlayState::take_damage`] (see [`rect_fits`]).
pub open spec fn recorded(damage: Seq<Rect>, r: Rect) -> Seq<Rect> {
    if rect_fits(r) {
        damage.push(r)
    } else {
        damage
    }
}

/// The extent from `lo` to `hi` (in 1/256 pixel) in whole pixels, as the
/// renderer measures what it drew: it starts at `lo` rounded down, but not
/// before 0, and is `hi - lo` rounded up long, but no longer than `size`.
pub open spec fn extent_span(lo: int, hi: int, size: int) -> (int, int) {
    let start = if floor_px(lo) >= 0 { floor_px(lo) } else { 0 };
    let len = if ceil_px(hi - lo) <= size { ceil_px(hi - lo) } else { size };
    (start, len)
}

/// The area that a round-capped line of `radius` from `from` to `to` (a dot
/// when they are the same point) covers on a canvas of `width` by `height`:
/// the box of both ends, grown by the radius, measured as [`extent_span`]
/// says.
pub open spec fn line_damage(from: Point, to: Point, radius: u32, width: i32, height: i32) -> Rect {
    let min_x = if from.x <= to.x { from.x as int } else { to.x as int };
    let max_x = if from.x >= to.x { from.x as int } else { to.x as int };
    let min_y = if from.y <= to.y { from.y as int } else { to.y as int };
    let max_y = if from.y >= to.y { from.y as int } else { to.y as int };
    let (x, w) = extent_span(min_x - radius, max_x + radius, width as int);
    let (y, h) = extent_span(min_y - radius, max_y + radius, height as int);
    Rect { x: x as i32, y: y as i32, width: w as i32, height: h as i32 }
}

fn extent_span_exec(lo: i64, hi: i64, size: i32) -> (res: (i32, i32))
    requires
        -0x10_0000_0000 <= lo <= i32::MAX,
        lo <= hi <= 0x10_0000_0000,
        size >= 0,
    ensures
        (res.0 as int, res.1 as int) == extent_span(lo as int, hi as int, size as int),
{
    let f = floor_px_exec(lo);
    let start = if f >= 0 { f } else { 0 };
    let c = ceil_px_exec(hi - lo);
    let len = if c <= size as i64 { c } else { size as i64 };
    (start as i32, len as i32)
}

fn line_damage_exec(from: Point, to: Point, radius: u32, width: i32, height: i32) -> (res: Rect)
    requires
        width >= 0,
        height >= 0,
    ensures
        res == line_damage(from, to, radius, width, height),
{
    let r = radius as i64;
    let min_x = if from.x <= to.x { from.x } else { to.x } as i64;
    let max_x = if from.x >= to.x { from.x } else { to.x } as i64;
    let min_y = if from.y <= to.y { from.y } else { to.y } as i64;
    let max_y = if from.y >= to.y { from.y } else { to.y } as i64;
    let (x, w) = extent_span_exec(min_x - r, max_x + r, width);
    let (y, h) = extent_span_exec(min_y - r, max_y + r, height);
    Rect { x, y, width: w, height: h }
}

/// Whether a rectangle covers any pixel.
pub open spec fn is_nonempty(r: Rect) -> bool {
    r.width > 0 && r.height > 0
}

/// The smallest rectangle holding both.
pub open spec fn union_rect(a: Rect, b: Rect) -> Rect {
    let x1 = if a.x <= b.x { a.x } else { b.x };
    let y1 = if a.y <= b.y { a.y } else { b.y };
    let x2 = if a.x + a.width >= b.x + b.width { a.x + a.width } else { b.x + b.width };
    let y2 = if a.y + a.height >= b.y + b.height { a.y + a.height } else { b.y + b.height };
    Rect { x: x1, y: y1, width: (x2 - x1) as i32, height: (y2 - y1) as i32 }
}

/// The bounding rectangle of the non-empty rectangles, folded in order.
pub open spec fn bounding(rs: Seq<Rect>) -> Option<Rect>
    decreases rs.len(),
{
    if rs.len() == 0 {
        None
    } else {
        let prev = bounding(rs.drop_last());
        let r = rs.last();
        if !is_nonempty(r) {
            prev
        } else {
            match prev {
                None => Some(r),
                Some(acc) => Some(union_rect(acc, r)),
            }
        }
    }
}

/// The whole canvas.
pub open spec fn full_rect(width: i32, height: i32) -> Rect {
    Rect { x: 0, y: 0, width, height }
}

/// The drawing state of a shown overlay. The canvas itself belongs to the
/// renderer: every event returns the [`CanvasOp`]s to perform on it, and
/// records as damage the area that each dot or line it asks for may cover.
pub struct OverlayState {
    pub width: i32,
    pub height: i32,
    pub current_stroke: Option<Stroke>,
    pub background_color: Color,
    pub primary_tool: Tool,
    pub override_tool: Option<Tool>,
    pub history: Vec<HistoryItem>,
    pub ui: UI,
    pub keep_open: bool,
    pub help_shown: bool,
    pub damage: Vec<Rect>,
}

impl OverlayState {
    /// The drawing state as values.
    pub open spec fn data(&self) -> OverlayData {
        OverlayData {
            width: self.width,
            height: self.height,
            current_stroke: match self.current_stroke {
                Some(s) => Some(s@),
                None => None,
            },
            background_color: self.background_color,
            primary_tool: self.primary_tool,
            override_tool: self.override_tool,
            history: history_view(self.history@),
            keep_open: self.keep_open,
            help_shown: self.help_shown,
        }
    }

    /// The state's invariant.
    pub open spec fn wf(&self) -> bool {
        &&& self.width >= 0
        &&& self.height >= 0
        &&& self.ui.wf()
        &&& forall|i: int| 0 <= i < self.damage@.len() ==> #[trigger] rect_fits(self.damage@[i])
    }

    /// The tool in use: the one a button overrides it with, or the primary
    /// tool.
    pub open spec fn spec_current_tool(&self) -> Tool {
        match self.override_tool {
            Some(t) => t,
            None => self.primary_tool,
        }
    }

    /// A fresh overlay of the given size: a transparent canvas, the red pen,
    /// no history, the whole canvas to be drawn. `font_height` and
    /// `text_widths` are the context menu's measurements (see
    /// [`UI::new`]).
    pub fn new(width: i32, height: i32, font_height: i32, text_widths: Vec<(i32, i32)>) -> (res: Self)
        requires
            width >= 0,
            height >= 0,
            metrics_ok(font_height as int, text_widths@),
        ensures
            res.wf(),
            res.data() == (OverlayData {
                width,
                height,
                current_stroke: None,
                background_color: Color::transparent(),
                primary_tool: Tool::Pen(Color::red()),
                override_tool: None,
                history: seq![],
                keep_open: true,
                help_shown: false,
            }),
            res.ui.menu() is None,
            res.damage@ == seq![full_rect(width, height)],
    {
        let res = Self {
            width,
            height,
            current_stroke: None,
            background_color: Color::transparent(),
            primary_tool: Tool::default(),
            override_tool: None,
            history: Vec::new(),
            ui: UI::new(width, height, font_height, text_widths),
            keep_open: true,
            help_shown: false,
            damage: vec![Rect::new(0, 0, width, height)],
        };
        assert(history_view(res.history@) =~= Seq::<HistoryEntry>::empty());
        res
    }

    /// The tool in use.
    pub fn current_tool(&self) -> (res: Tool)
        ensures
            res == self.spec_current_tool(),
    {
        match self.override_tool {
            Some(t) => t,
            None => self.primary_tool,
        }
    }

    /// The cursor for the tool in use.
    pub fn cursor_shape(&self) -> (res: CursorShape)
        ensures
            res == self.spec_current_tool().spec_cursor_shape(),
    {
        self.current_tool().cursor_shape()
    }

    /// Records that `damage` must be redrawn.
    pub fn mark_dirty(&mut self, damage: Rect)
        requires
            old(self).wf(),
            rect_fits(damage),
        ensures
            final(self).wf(),
            final(self).data() == old(self).data(),
            final(self).ui == old(self).ui,
            final(self).damage@ == old(self).damage@.push(damage),
    {
        self.damage.push(damage);
    }

    fn mark_all_dirty(&mut self)
        requires
            old(self).wf(),
        ensures
            final(self).wf(),
            final(self).data() == old(self).data(),
            final(self).ui == old(self).ui,
            final(self).damage@ == old(self).damage@.push(full_rect(old(self).width, old(self).height)),
    {
        let r = Rect::new(0, 0, self.width, self.height);
        self.damage.push(r);
    }

    /// Consumes the accumulated damage and returns the bounding rectangle of
    /// its non-empty parts, or `None` when there are none.
    pub fn take_damage(&mut self) -> (res: Option<Rect>)
        requires
            old(self).wf(),
        ensures
            final(self).wf(),
            final(self).data() == old(self).data(),
            final(self).ui == old(self).ui,
            final(self).damage@ == Seq::<Rect>::empty(),
            res == bounding(old(self).damage@),
    {
        let mut total: Option<Rect> = None;
        let mut i: usize = 0;
        let ghost rs = self.damage@;
        while i < self.damage.len()
            invariant
                i <= self.damage.len(),
                rs == self.damage@,
                forall|k: int| 0 <= k < rs.len() ==> #[trigger] rect_fits(rs[k]),
                total == bounding(rs.take(i as int)),
                total matches Some(t) ==> rect_fits(t),
            decreases self.damage.len() - i,
        {
            assert(rs.take(i + 1).drop_last() =~= rs.take(i as int));
            assert(rs.take(i + 1).last() == rs[i as int]);
            let r = self.damage[i];
            assert(rect_fits(rs[i as int]));
            if r.width > 0 && r.height > 0 {
                total = match total {
                    None => Some(r),
                    Some(acc) => {
                        let x1 = if acc.x <= r.x { acc.x } else { r.x };
                        let y1 = if acc.y <= r.y { acc.y } else { r.y };
                        let x2 = if acc.x + acc.width >= r.x + r.width { acc.x + acc.width } else { r.x + r.width };
                        let y2 = if acc.y + acc.height >= r.y + r.height { acc.y + acc.height } else { r.y + r.height };
                        Some(Rect::new(x1, y1, x2 - x1, y2 - y1))
                    },
                };
            }
            i = i + 1;
        }
        assert(rs.take(rs.len() as int) =~= rs);
        self.damage = Vec::new();
        total
    }
}


/// Whether `new` is `old` after applying `action`: the drawing changes as
/// [`apply_data`] says, the interface as [`ui_effect`] says, and the whole
/// canvas is marked for redrawing (twice when a menu selection was
/// applied).
pub open spec fn action_applied(old: OverlayState, new: OverlayState, action: Action, ops: Seq<CanvasOp>) -> bool {
    let full = full_rect(old.width, old.height);
    &&& new.wf()
    &&& ui_effect(old.ui, new.ui, action)
    &&& match action {
        Action::ApplyMenuSelection => match menu_selection(old.ui) {
            Some(a) => (new.data(), ops) == apply_data(old.data(), a) && new.damage@ == old.damage@.push(
                full,
            ).push(full),
            None => new.data() == old.data() && ops == Seq::<CanvasOp>::empty() && new.damage@
                == old.damage@.push(full),
        },
        _ => (new.data(), ops) == apply_data(old.data(), action) && new.damage@ == old.damage@.push(
            full,
        ),
    }
}

/// Whether the interface of `new` is that of `old` with the menu closed.
pub open spec fn menu_closed(old: UI, new: UI) -> bool {
    new.same_layout(&old) && new.last_pos() == old.last_pos() && new.menu() is None
}

/// The stroke a new press starts at `pos` with the tool in use.
pub open spec fn new_stroke(d: OverlayData, pos: Point) -> StrokeView {
    let tool = match d.override_tool {
        Some(t) => t,
        None => d.primary_tool,
    };
    StrokeView {
        color: tool.spec_pixel_color(d.background_color),
        brush_radius: tool.spec_brush_radius(),
        points: seq![pos],
    }
}

/// Whether `new` is `old` after a button press at `pos` that the menu did
/// not take: a press of the middle button overrides the tool with the
/// eraser until release, unless a stroke is in progress.
pub open spec fn press_not_taken(old: OverlayState, new: OverlayState, btn: InputButton) -> bool {
    &&& new.wf()
    &&& new.ui == old.ui
    &&& new.damage@ == old.damage@
    &&& if old.current_stroke is Some {
        new.data() == old.data()
    } else {
        new.data() == (OverlayData {
            override_tool: if btn == InputButton::Tertiary {
                Some(Tool::Eraser)
            } else {
                None
            },
            ..old.data()
        })
    }
}

/// Whether `new` is `old` after a button press at `pos`, with `ops` the
/// canvas operations and `handled` whether the menu took the press.
pub open spec fn button_pressed(
    old: OverlayState,
    new: OverlayState,
    pos: Point,
    btn: InputButton,
    ops: Seq<CanvasOp>,
    handled: bool,
) -> bool {
    let full = full_rect(old.width, old.height);
    match old.ui.menu() {
        None => if btn == InputButton::Secondary {
            &&& handled
            &&& new.wf()
            &&& new.data() == old.data()
            &&& ops == Seq::<CanvasOp>::empty()
            &&& new.damage@ == old.damage@.push(full)
            &&& new.ui.same_layout(&old.ui)
            &&& new.ui.last_pos() == old.ui.last_pos()
            &&& new.ui.menu() matches Some(m) && old.ui.opens_as(m, pos.spec_pixel())
        } else {
            !handled && ops == Seq::<CanvasOp>::empty() && press_not_taken(old, new, btn)
        },
        Some(m) => {
            let a = action_at(m.spec_buttons(), first_hit(m.spec_buttons(), pos.spec_pixel().x as int, pos.spec_pixel().y as int));
            &&& handled
            &&& new.wf()
            &&& menu_closed(old.ui, new.ui)
            &&& match a {
                Some(a) => (new.data(), ops) == apply_data(old.data(), a) && new.damage@
                    == old.damage@.push(full).push(full),
                None => new.data() == old.data() && ops == Seq::<CanvasOp>::empty() && new.damage@
                    == old.damage@.push(full),
            }
        },
    }
}

/// Whether `new` is `old` after a button release at `pos`, with `ops` the
/// canvas operations and `handled` whether the menu took the release. A
/// release the menu does not take ends the tool override.
pub open spec fn button_released(
    old: OverlayState,
    new: OverlayState,
    pos: Point,
    btn: InputButton,
    ops: Seq<CanvasOp>,
    handled: bool,
) -> bool {
    let full = full_rect(old.width, old.height);
    match old.ui.menu() {
        None => {
            &&& !handled
            &&& new.wf()
            &&& ops == Seq::<CanvasOp>::empty()
            &&& new.ui == old.ui
            &&& new.damage@ == old.damage@
            &&& new.data() == (OverlayData { override_tool: None, ..old.data() })
        },
        Some(m) => {
            let hover = first_hit(m.spec_buttons(), pos.spec_pixel().x as int, pos.spec_pixel().y as int);
            let a = if btn == InputButton::Secondary {
                action_at(m.spec_buttons(), hover)
            } else {
                None
            };
            &&& handled
            &&& new.wf()
            &&& new.ui.same_layout(&old.ui)
            &&& new.ui.last_pos() == old.ui.last_pos()
            &&& match a {
                Some(a) => new.ui.menu() is None && (new.data(), ops) == apply_data(old.data(), a)
                    && new.damage@ == old.damage@.push(full).push(full),
                None => (new.ui.menu() matches Some(m2) && m2.rows() == m.rows() && m2.spec_rect()
                    == m.spec_rect() && m2.spec_hover() == hover) && new.data() == old.data() && ops
                    == Seq::<CanvasOp>::empty() && new.damage@ == old.damage@.push(full),
            }
        },
    }
}

impl OverlayState {
    /// The operations that redraw the whole history.
    pub fn replay_history(&self) -> (ops: Vec<CanvasOp>)
        ensures
            ops@ == replay(history_view(self.history@)),
    {
        let mut ops: Vec<CanvasOp> = Vec::new();
        let ghost h = history_view(self.history@);
        let mut i: usize = 0;
        while i < self.history.len()
            invariant
                i <= self.history.len(),
                h == history_view(self.history@),
                ops@ == replay(h.take(i as int)),
            decreases self.history.len() - i,
        {
            assert(h.take(i + 1).drop_last() =~= h.take(i as int));
            assert(h.take(i + 1).last() == self.history@[i as int]@);
            match &self.history[i] {
                HistoryItem::Stroke(stroke) => {
                    let n = stroke.points.len();
                    if n > 0 {
                        let ghost start = ops@;
                        ops.push(
                            CanvasOp::DrawCircle {
                                center: stroke.points[0],
                                radius: stroke.brush_radius,
                                color: stroke.color,
                            },
                        );
                        let mut k: usize = 1;
                        while k < n
                            invariant
                                1 <= k <= n,
                                n == stroke.points@.len(),
                                ops@ == start + stroke_ops(stroke@).take(k as int),
                            decreases n - k,
                        {
                            ops.push(
                                CanvasOp::DrawLine {
                                    from: stroke.points[k - 1],
                                    to: stroke.points[k],
                                    radius: stroke.brush_radius,
                                    color: stroke.color,
                                },
                            );
                            assert(stroke_ops(stroke@).take(k + 1) =~= stroke_ops(stroke@).take(k as int).push(
                                stroke_ops(stroke@)[k as int],
                            ));
                            k = k + 1;
                        }
                        assert(stroke_ops(stroke@).take(n as int) =~= stroke_ops(stroke@));
                    } else {
                        assert(stroke_ops(stroke@) =~= Seq::<CanvasOp>::empty());
                    }
                },
                HistoryItem::Clear(color) => {
                    ops.push(CanvasOp::Fill(*color));
                },
            }
            i = i + 1;
        }
        assert(h.take(h.len() as int) =~= h);
        ops
    }

    /// The action that `key` triggers, if any.
    pub fn match_accel(&self, key: Key) -> (res: Option<Action>)
        ensures
            res == spec_match_accel(self.ui.menu() is Some, key),
    {
        let mut table = any_menu_accels();
        let mut rest = if self.ui.is_context_menu_open() {
            menu_accels()
        } else {
            no_menu_accels()
        };
        table.append(&mut rest);
        find_accel(&table, key)
    }

    /// Performs an action and marks the whole canvas for redrawing.
    pub fn apply_action(&mut self, action: Action) -> (ops: Vec<CanvasOp>)
        requires
            old(self).wf(),
        ensures
            action_applied(*old(self), *final(self), action, ops@),
        decreases (if action is ApplyMenuSelection {
            1int
        } else {
            0int
        }),
    {
        let mut ops: Vec<CanvasOp> = Vec::new();
        let ghost d = self.data();
        let ghost old_self = *self;
        proof {
            lemma_same_layout_refl(self.ui);
        }
        match action {
            Action::SetTool(tool) => {
                self.primary_tool = tool;
                self.ui.close_context_menu();
            },
            Action::Clear => {
                ops.push(CanvasOp::Fill(self.background_color));
                self.history.push(HistoryItem::Clear(self.background_color));
                self.ui.close_context_menu();
                assert(self.data().history =~= d.history.push(HistoryEntry::Clear(d.background_color)));
            },
            Action::SetBackground(color) => {
                if self.background_color != color {
                    self.background_color = color;
                    ops.push(CanvasOp::Fill(color));
                    self.history.push(HistoryItem::Clear(color));
                    assert(self.data().history =~= d.history.push(HistoryEntry::Clear(color)));
                }
                self.ui.close_context_menu();
            },
            Action::Undo => {
                if self.history.pop().is_some() {
                    assert(self.data().history =~= d.history.drop_last());
                    ops.push(CanvasOp::Clear);
                    let mut replayed = self.replay_history();
                    ops.append(&mut replayed);
                }
                self.ui.close_context_menu();
            },
            Action::OpenContextMenu => {
                self.ui.open_context_menu();
            },
            Action::CloseContextMenu => {
                self.ui.close_context_menu();
            },
            Action::Focus(direction) => {
                self.ui.focus_menu_item(direction);
            },
            Action::ApplyMenuSelection => {
                proof {
                    lemma_selection_is_item(self.ui);
                }
                if let Some(selected) = self.ui.get_menu_selection() {
                    ops = self.apply_action(selected);
                }
                let ghost mid = self.ui;
                self.ui.close_context_menu();
                proof {
                    lemma_same_layout_trans(old_self.ui, mid, self.ui);
                }
            },
            Action::HideOverlay => {
                self.keep_open = false;
            },
            Action::ToggleHelp => {
                self.help_shown = !self.help_shown;
            },
        }
        self.mark_all_dirty();
        proof {
            if !(action is ApplyMenuSelection) {
                assert(ops@ =~= apply_data(d, action).1);
                assert(self.data().history =~= apply_data(d, action).0.history);
                assert(self.data() == apply_data(d, action).0);
            }

        }
        ops
    }

    /// A key press: performs the action bound to the key, if any.
    pub fn on_key_pressed(&mut self, key: Key) -> (ops: Vec<CanvasOp>)
        requires
            old(self).wf(),
        ensures
            match spec_match_accel(old(self).ui.menu() is Some, key) {
                Some(action) => action_applied(*old(self), *final(self), action, ops@),
                None => *final(self) == *old(self) && ops@ == Seq::<CanvasOp>::empty(),
            },
    {
        match self.match_accel(key) {
            Some(action) => self.apply_action(action),
            None => Vec::new(),
        }
    }
}


impl OverlayState {
    fn on_button_pressed(&mut self, pos: Point, btn: InputButton) -> (res: (Vec<CanvasOp>, bool))
        requires
            old(self).wf(),
        ensures
            button_pressed(*old(self), *final(self), pos, btn, res.0@, res.1),
    {
        let ghost old_self = *self;
        proof {
            lemma_same_layout_refl(self.ui);
            lemma_menu_wf(self.ui);
        }
        let (action, handled) = self.ui.on_pointer_button_pressed(pos, btn);
        if let Some(action) = action {
            let ghost mid = self.ui;
            proof {
                if let Some(m) = old_self.ui.menu() {
                    let bs = m.spec_buttons();
                    let h = first_hit(bs, pos.spec_pixel().x as int, pos.spec_pixel().y as int);
                    if let Some(h) = h {
                        if h < bs.len() {
                            assert(is_item_action(bs[h as int].action));
                        }
                    }
                }
            }
            let ops = self.apply_action(action);
            proof {
                lemma_same_layout_trans(old_self.ui, mid, self.ui);
            }
            self.mark_all_dirty();
            return (ops, true);
        }
        if handled {
            self.mark_all_dirty();
            return (Vec::new(), true);
        }
        if self.current_stroke.is_some() {
            return (Vec::new(), false);
        }
        self.override_tool = if btn == InputButton::Tertiary {
            Some(Tool::Eraser)
        } else {
            None
        };
        (Vec::new(), false)
    }
}


/// Whether `new` is `old` after pointer motion to `pos`: the interface
/// follows the pointer; when the menu's hover changed the whole canvas is
/// marked; otherwise, with no menu open, a stroke in progress extends to
/// `pos` with a line from its last point, recording the area the line may
/// cover.
pub open spec fn moved(old: OverlayState, new: OverlayState, pos: Point, ops: Seq<CanvasOp>) -> bool {
    let hover_changed = match old.ui.menu() {
        Some(m) => first_hit(m.spec_buttons(), pos.spec_pixel().x as int, pos.spec_pixel().y as int)
            != m.spec_hover(),
        None => false,
    };
    &&& new.wf()
    &&& new.ui.same_layout(&old.ui)
    &&& new.ui.last_pos() == Some(pos.spec_pixel())
    &&& (old.ui.menu() is None ==> new.ui.menu() is None)
    &&& (old.ui.menu() matches Some(m) ==> (new.ui.menu() matches Some(m2) && m2.rows() == m.rows()
        && m2.spec_rect() == m.spec_rect() && m2.spec_hover() == first_hit(
        m.spec_buttons(),
        pos.spec_pixel().x as int,
        pos.spec_pixel().y as int,
    )))
    &&& if hover_changed {
        new.data() == old.data() && ops == Seq::<CanvasOp>::empty() && new.damage@ == old.damage@.push(
            full_rect(old.width, old.height),
        )
    } else if old.ui.menu() is Some {
        new.data() == old.data() && ops == Seq::<CanvasOp>::empty() && new.damage@ == old.damage@
    } else {
        match old.data().current_stroke {
            Some(st) => if st.points.len() > 0 {
                &&& new.damage@ == recorded(
                    old.damage@,
                    line_damage(st.points.last(), pos, st.brush_radius, old.width, old.height),
                )
                &&& new.data() == (OverlayData {
                    current_stroke: Some(StrokeView { points: st.points.push(pos), ..st }),
                    ..old.data()
                })
                &&& ops == seq![
                    CanvasOp::DrawLine {
                        from: st.points.last(),
                        to: pos,
                        radius: st.brush_radius,
                        color: st.color,
                    },
                ]
            } else {
                new.data() == old.data() && ops == Seq::<CanvasOp>::empty() && new.damage@ == old.damage@
            },
            None => new.data() == old.data() && ops == Seq::<CanvasOp>::empty() && new.damage@ == old.damage@,
        }
    }
}

impl OverlayState {
    fn on_button_released(&mut self, pos: Point, btn: InputButton) -> (res: (Vec<CanvasOp>, bool))
        requires
            old(self).wf(),
        ensures
            button_released(*old(self), *final(self), pos, btn, res.0@, res.1),
    {
        let ghost old_self = *self;
        proof {
            lemma_same_layout_refl(self.ui);
            lemma_menu_wf(self.ui);
        }
        let (action, handled) = self.ui.on_pointer_button_released(pos, btn);
        if let Some(action) = action {
            let ghost mid = self.ui;
            proof {
                if let Some(m) = old_self.ui.menu() {
                    let bs = m.spec_buttons();
                    let h = first_hit(bs, pos.spec_pixel().x as int, pos.spec_pixel().y as int);
                    if let Some(h) = h {
                        if h < bs.len() {
                            assert(is_item_action(bs[h as int].action));
                        }
                    }
                }
            }
            let ops = self.apply_action(action);
            proof {
                lemma_same_layout_trans(old_self.ui, mid, self.ui);
            }
            self.mark_all_dirty();
            return (ops, true);
        }
        if handled {
            self.mark_all_dirty();
            return (Vec::new(), true);
        }
        self.override_tool = None;
        (Vec::new(), false)
    }

    /// Starts a stroke at `pos` with the tool in use, drawing a dot there
    /// and recording the area it may cover.
    pub fn begin_stroke(&mut self, pos: Point) -> (ops: Vec<CanvasOp>)
        requires
            old(self).wf(),
        ensures
            final(self).wf(),
            final(self).ui == old(self).ui,
            final(self).damage@ == recorded(old(self).damage@, begin_damage(old(self).data(), pos)),
            final(self).data() == (OverlayData {
                current_stroke: Some(new_stroke(old(self).data(), pos)),
                ..old(self).data()
            }),
            ops@ == seq![
                CanvasOp::DrawCircle {
                    center: pos,
                    radius: new_stroke(old(self).data(), pos).brush_radius,
                    color: new_stroke(old(self).data(), pos).color,
                },
            ],
    {
        let tool = self.current_tool();
        let brush_radius = tool.brush_radius();
        let color = tool.pixel_color(self.background_color);
        let points = vec![pos];
        assert(points@ =~= seq![pos]);
        self.current_stroke = Some(Stroke { color, brush_radius, points });
        assert(self.data().current_stroke == Some(new_stroke(old(self).data(), pos)));
        let damage = line_damage_exec(pos, pos, brush_radius, self.width, self.height);
        if damage_fits(damage) {
            self.mark_dirty(damage);
        }
        vec![CanvasOp::DrawCircle { center: pos, radius: brush_radius, color }]
    }

    /// Finishes the stroke in progress, adding it to the history.
    pub fn end_stroke(&mut self)
        requires
            old(self).wf(),
        ensures
            final(self).wf(),
            final(self).ui == old(self).ui,
            final(self).damage@ == old(self).damage@,
            final(self).data() == match old(self).data().current_stroke {
                Some(st) => OverlayData {
                    current_stroke: None,
                    history: old(self).data().history.push(HistoryEntry::Stroke(st)),
                    ..old(self).data()
                },
                None => old(self).data(),
            },
    {
        match self.current_stroke.take() {
            Some(stroke) => {
                let ghost st = stroke@;
                self.history.push(HistoryItem::Stroke(stroke));
                assert(self.data().history =~= old(self).data().history.push(HistoryEntry::Stroke(st)));
            },
            None => {},
        }
    }

    fn on_motion(&mut self, pos: Point) -> (ops: Vec<CanvasOp>)
        requires
            old(self).wf(),
        ensures
            moved(*old(self), *final(self), pos, ops@),
    {
        let ghost old_self = *self;
        proof {
            lemma_same_layout_refl(self.ui);
        }
        let redraw = self.ui.on_pointer_motion(pos);
        if redraw {
            self.mark_all_dirty();
            assert(moved(old_self, *self, pos, Seq::<CanvasOp>::empty()));
            return Vec::new();
        }
        if self.ui.is_context_menu_open() {
            assert(moved(old_self, *self, pos, Seq::<CanvasOp>::empty()));
            return Vec::new();
        }
        match self.current_stroke.take() {
            None => {
                assert(moved(old_self, *self, pos, Seq::<CanvasOp>::empty()));
                Vec::new()
            },
            Some(mut stroke) => {
                let n = stroke.points.len();
                if n == 0 {
                    self.current_stroke = Some(stroke);
                    return Vec::new();
                }
                let prev = stroke.points[n - 1];
                let ghost st = stroke@;
                stroke.points.push(pos);
                let brush_radius = stroke.brush_radius;
                let color = stroke.color;
                self.current_stroke = Some(stroke);
                let damage = line_damage_exec(prev, pos, brush_radius, self.width, self.height);
                if damage_fits(damage) {
                    self.mark_dirty(damage);
                }
                assert(self.data().current_stroke == Some(StrokeView { points: st.points.push(pos), ..st }));
                let ops = vec![CanvasOp::DrawLine { from: prev, to: pos, radius: brush_radius, color }];
                assert(prev == st.points.last());
                assert(ops@ =~= seq![CanvasOp::DrawLine { from: st.points.last(), to: pos, radius: st.brush_radius, color: st.color }]);
                assert(moved(old_self, *self, pos, ops@));
                ops
            },
        }
    }
}


/// The drawing state after a press the menu did not take: a press of the
/// middle button overrides the tool with the eraser, others clear the
/// override, unless a stroke is in progress.
pub open spec fn pressed_data(d: OverlayData, btn: InputButton) -> OverlayData {
    if d.current_stroke is Some {
        d
    } else {
        OverlayData {
            override_tool: if btn == InputButton::Tertiary {
                Some(Tool::Eraser)
            } else {
                None
            },
            ..d
        }
    }
}

/// The drawing state after the stroke in progress, if any, is finished.
pub open spec fn ended(d: OverlayData) -> OverlayData {
    match d.current_stroke {
        Some(st) => OverlayData {
            current_stroke: None,
            history: d.history.push(HistoryEntry::Stroke(st)),
            ..d
        },
        None => d,
    }
}

/// The drawing state with a stroke started at `pos`.
pub open spec fn begun(d: OverlayData, pos: Point) -> OverlayData {
    OverlayData { current_stroke: Some(new_stroke(d, pos)), ..d }
}

/// The dot that starts a stroke at `pos`.
pub open spec fn begin_ops(d: OverlayData, pos: Point) -> Seq<CanvasOp> {
    seq![
        CanvasOp::DrawCircle {
            center: pos,
            radius: new_stroke(d, pos).brush_radius,
            color: new_stroke(d, pos).color,
        },
    ]
}

/// The area that the dot starting a stroke at `pos` covers.
pub open spec fn begin_damage(d: OverlayData, pos: Point) -> Rect {
    line_damage(pos, pos, new_stroke(d, pos).brush_radius, d.width, d.height)
}

impl OverlayState {
    /// A pointer button press at `pos`. When the menu does not take it, the
    /// overlay is still open and the button is not the secondary one, a
    /// stroke starts.
    pub fn on_pointer_button_pressed(&mut self, pos: Point, input_btn: InputButton) -> (ops: Vec<CanvasOp>)
        requires
            old(self).wf(),
        ensures
            if old(self).ui.menu() is None && input_btn != InputButton::Secondary {
                let d1 = pressed_data(old(self).data(), input_btn);
                &&& final(self).wf()
                &&& final(self).ui == old(self).ui
                &&& if old(self).keep_open {
                    &&& final(self).data() == begun(d1, pos)
                    &&& ops@ == begin_ops(d1, pos)
                    &&& final(self).damage@ == recorded(old(self).damage@, begin_damage(d1, pos))
                } else {
                    final(self).data() == d1 && ops@ == Seq::<CanvasOp>::empty() && final(self).damage@
                        == old(self).damage@
                }
            } else {
                button_pressed(*old(self), *final(self), pos, input_btn, ops@, true)
            },
    {
        let (ops, handled) = self.on_button_pressed(pos, input_btn);
        if self.keep_open && !handled && input_btn != InputButton::Secondary {
            return self.begin_stroke(pos);
        }
        ops
    }

    /// A pointer button release at `pos`. When the menu does not take it,
    /// the overlay is still open and the button is not the secondary one,
    /// the stroke in progress ends.
    pub fn on_pointer_button_released(&mut self, pos: Point, input_btn: InputButton) -> (ops: Vec<CanvasOp>)
        requires
            old(self).wf(),
        ensures
            if old(self).ui.menu() is None {
                let d1 = OverlayData { override_tool: None, ..old(self).data() };
                &&& final(self).wf()
                &&& final(self).ui == old(self).ui
                &&& final(self).damage@ == old(self).damage@
                &&& ops@ == Seq::<CanvasOp>::empty()
                &&& final(self).data() == if old(self).keep_open && input_btn != InputButton::Secondary {
                    ended(d1)
                } else {
                    d1
                }
            } else {
                button_released(*old(self), *final(self), pos, input_btn, ops@, true)
            },
    {
        let (ops, handled) = self.on_button_released(pos, input_btn);
        if self.keep_open && !handled && input_btn != InputButton::Secondary {
            self.end_stroke();
        }
        ops
    }

    /// The pointer entered the overlay: any stroke in progress is dropped.
    pub fn on_pointer_enter(&mut self)
        requires
            old(self).wf(),
        ensures
            final(self).wf(),
            final(self).ui == old(self).ui,
            final(self).damage@ == old(self).damage@,
            final(self).data() == (OverlayData { current_stroke: None, ..old(self).data() }),
    {
        self.current_stroke = None;
    }

    /// The pointer left the overlay: any stroke in progress is dropped.
    pub fn on_pointer_leave(&mut self)
        requires
            old(self).wf(),
        ensures
            final(self).wf(),
            final(self).ui == old(self).ui,
            final(self).damage@ == old(self).damage@,
            final(self).data() == (OverlayData { current_stroke: None, ..old(self).data() }),
    {
        self.current_stroke = None;
    }

    /// Pointer motion to `pos`.
    pub fn on_pointer_motion(&mut self, pos: Point) -> (ops: Vec<CanvasOp>)
        requires
            old(self).wf(),
        ensures
            moved(*old(self), *final(self), pos, ops@),
    {
        self.on_motion(pos)
    }

    /// The stylus touched the tablet at `pos`: a primary press on the open
    /// menu, otherwise the start of a stroke.
    pub fn on_tablet_down(&mut self, pos: Point) -> (ops: Vec<CanvasOp>)
        requires
            old(self).wf(),
        ensures
            if old(self).ui.menu() is Some {
                button_pressed(*old(self), *final(self), pos, InputButton::Primary, ops@, true)
            } else {
                &&& final(self).wf()
                &&& final(self).ui == old(self).ui
                &&& final(self).damage@ == recorded(old(self).damage@, begin_damage(old(self).data(), pos))
                &&& final(self).data() == begun(old(self).data(), pos)
                &&& ops@ == begin_ops(old(self).data(), pos)
            },
    {
        if self.ui.is_context_menu_open() {
            let (ops, _) = self.on_button_pressed(pos, InputButton::Primary);
            ops
        } else {
            self.begin_stroke(pos)
        }
    }

    /// The stylus left the tablet at `pos`: a primary release on the open
    /// menu, otherwise the end of the stroke.
    pub fn on_tablet_up(&mut self, pos: Point) -> (ops: Vec<CanvasOp>)
        requires
            old(self).wf(),
        ensures
            if old(self).ui.menu() is Some {
                button_released(*old(self), *final(self), pos, InputButton::Primary, ops@, true)
            } else {
                &&& final(self).wf()
                &&& final(self).ui == old(self).ui
                &&& final(self).damage@ == old(self).damage@
                &&& final(self).data() == ended(old(self).data())
                &&& ops@ == Seq::<CanvasOp>::empty()
            },
    {
        if self.ui.is_context_menu_open() {
            let (ops, _) = self.on_button_released(pos, InputButton::Primary);
            ops
        } else {
            self.end_stroke();
            Vec::new()
        }
    }

    /// A stylus button at `pos` was pressed or released.
    pub fn on_tablet_button(&mut self, pos: Point, button: InputButton, pressed: bool) -> (ops: Vec<CanvasOp>)
        requires
            old(self).wf(),
        ensures
            if pressed {
                exists|handled: bool| button_pressed(*old(self), *final(self), pos, button, ops@, handled)
            } else {
                exists|handled: bool| button_released(*old(self), *final(self), pos, button, ops@, handled)
            },
    {
        if pressed {
            let (ops, _) = self.on_button_pressed(pos, button);
            ops
        } else {
            let (ops, _) = self.on_button_released(pos, button);
            ops
        }
    }

    /// The stylus came near the overlay: any stroke in progress is dropped.
    pub fn on_tablet_enter(&mut self)
        requires
            old(self).wf(),
        ensures
            final(self).wf(),
            final(self).ui == old(self).ui,
            final(self).damage@ == old(self).damage@,
            final(self).data() == (OverlayData { current_stroke: None, ..old(self).data() }),
    {
        self.current_stroke = None;
    }

    /// The stylus went away from the overlay: any stroke in progress is
    /// dropped.
    pub fn on_tablet_leave(&mut self)
        requires
            old(self).wf(),
        ensures
            final(self).wf(),
            final(self).ui == old(self).ui,
            final(self).damage@ == old(self).damage@,
            final(self).data() == (OverlayData { current_stroke: None, ..old(self).data() }),
    {
        self.current_stroke = None;
    }

    /// Stylus motion to `pos`.
    pub fn on_tablet_motion(&mut self, pos: Point) -> (ops: Vec<CanvasOp>)
        requires
            old(self).wf(),
        ensures
            moved(*old(self), *final(self), pos, ops@),
    {
        self.on_motion(pos)
    }

    /// The overlay changed size: the canvas starts over, transparent and
    /// without history, and is to be drawn whole.
    pub fn resize(&mut self, width: i32, height: i32)
        requires
            old(self).wf(),
            width >= 0,
            height >= 0,
        ensures
            final(self).wf(),
            final(self).ui == old(self).ui,
            final(self).damage@ == seq![full_rect(width, height)],
            final(self).data() == (OverlayData { width, height, history: seq![], ..old(self).data() }),
    {
        self.width = width;
        self.height = height;
        self.history = Vec::new();
        self.damage = vec![Rect::new(0, 0, width, height)];
        assert(history_view(self.history@) =~= Seq::<HistoryEntry>::empty());
        assert(self.damage@ =~= seq![full_rect(width, height)]);
    }
}


/// How far the overlay is: absent, created but waiting for its size from the
/// compositor, or shown.
#[derive(Debug, Clone, Copy, PartialEq, Eq, Structural)]
pub enum OverlayStatus {
    Absent,
    Pending,
    Ready,
}

/// What toggling the overlay does in each status.
#[derive(Debug, Clone, Copy, PartialEq, Eq, Structural)]
pub enum ToggleStep {
    Create,
    Wait,
    ToggleFocusOrDestroy,
}

/// Toggling creates an absent overlay, waits for a pending one and lets a
/// shown one toggle its focus or go away.
pub open spec fn spec_toggle_step(status: OverlayStatus) -> ToggleStep {
    match status {
        OverlayStatus::Absent => ToggleStep::Create,
        OverlayStatus::Pending => ToggleStep::Wait,
        OverlayStatus::Ready => ToggleStep::ToggleFocusOrDestroy,
    }
}

/// What toggling the overlay does in `status`.
pub fn toggle_step(status: OverlayStatus) -> (res: ToggleStep)
    ensures
        res == spec_toggle_step(status),
{
    match status {
        OverlayStatus::Absent => ToggleStep::Create,
        OverlayStatus::Pending => ToggleStep::Wait,
        OverlayStatus::Ready => ToggleStep::ToggleFocusOrDestroy,
    }
}

/// What a configure event with a new size does to the overlay.
#[derive(Debug, Clone, Copy, PartialEq, Eq, Structural)]
pub enum ConfigureStep {
    /// The pending overlay becomes ready at that size.
    Create,
    /// The ready overlay starts over at the new size.
    Resize,
    /// Nothing changes.
    Ignore,
}

/// What a configure event does: a pending overlay is created at the
/// configured size, a ready one of another size is resized, otherwise nothing
/// happens.
pub open spec fn spec_configure_step(status: OverlayStatus, current: (i32, i32), configured: (i32, i32)) -> ConfigureStep {
    match status {
        OverlayStatus::Pending => ConfigureStep::Create,
        OverlayStatus::Ready => if current != configured {
            ConfigureStep::Resize
        } else {
            ConfigureStep::Ignore
        },
        OverlayStatus::Absent => ConfigureStep::Ignore,
    }
}

/// What a configure event for `configured` does in `status`, the overlay
/// being `current` in size when ready.
pub fn configure_step(status: OverlayStatus, current: (i32, i32), configured: (i32, i32)) -> (res: ConfigureStep)
    ensures
        res == spec_configure_step(status, current, configured),
{
    match status {
        OverlayStatus::Pending => ConfigureStep::Create,
        OverlayStatus::Ready => {
            if current.0 != configured.0 || current.1 != configured.1 {
                ConfigureStep::Resize
            } else {
                ConfigureStep::Ignore
            }
        },
        OverlayStatus::Absent => ConfigureStep::Ignore,
    }
}

/// What toggling a ready overlay does to it.
#[derive(Debug, Clone, Copy, PartialEq, Eq, Structural)]
pub enum FocusStep {
    /// A window cannot give up its focus: it goes away.
    Destroy,
    /// The overlay stays shown but lets input through.
    Unfocus,
    /// The overlay takes input again.
    Focus,
}

/// Toggling a ready overlay destroys a window, and moves the focus of a
/// layer surface: away from it when it has the focus, back otherwise.
pub open spec fn spec_focus_step(is_layer_surface: bool, has_focus: bool) -> FocusStep {
    if !is_layer_surface {
        FocusStep::Destroy
    } else if has_focus {
        FocusStep::Unfocus
    } else {
        FocusStep::Focus
    }
}

/// What toggling a ready overlay does to it.
pub fn focus_step(is_layer_surface: bool, has_focus: bool) -> (res: FocusStep)
    ensures
        res == spec_focus_step(is_layer_surface, has_focus),
{
    if !is_layer_surface {
        FocusStep::Destroy
    } else if has_focus {
        FocusStep::Unfocus
    } else {
        FocusStep::Focus
    }
}

/// Implemented by the application that owns the overlay.
pub trait OverlayController: Sized {
    /// Where the overlay stands in the application's state.
    spec fn status_view(&self) -> OverlayStatus;

    /// Whether `new` is `old` with the overlay's creation started.
    spec fn overlay_created(old: Self, new: Self) -> bool;

    /// Whether `new` is `old` with the ready overlay's focus toggled, or the
    /// overlay removed.
    spec fn focus_toggled_or_destroyed(old: Self, new: Self) -> bool;

    /// Where the overlay stands.
    fn overlay_status(&self) -> (res: OverlayStatus)
        ensures
            res == self.status_view(),
    ;

    /// Starts creating the overlay: afterwards there is one, pending or ready.
    fn create_overlay(&mut self)
        ensures
            Self::overlay_created(*old(self), *final(self)),
            !(final(self).status_view() is Absent),
    ;

    /// Removes the overlay.
    fn destroy_overlay(&mut self)
        ensures
            final(self).status_view() is Absent,
    ;

    /// A ready overlay either stays ready, with its focus moved, or is removed.
    fn toggle_focus_or_destroy_overlay(&mut self)
        ensures
            Self::focus_toggled_or_destroyed(*old(self), *final(self)),
            old(self).status_view() is Ready ==> (final(self).status_view() is Ready
                || final(self).status_view() is Absent),
    ;

    /// Creates the overlay when there is none, does nothing while it is
    /// pending, and otherwise toggles its focus or destroys it.
    fn on_toggle_overlay(&mut self)
        ensures
            old(self).status_view() is Absent ==> Self::overlay_created(*old(self), *final(self)),
            old(self).status_view() is Absent ==> !(final(self).status_view() is Absent),
            old(self).status_view() is Pending ==> *final(self) == *old(self),
            old(self).status_view() is Ready ==> Self::focus_toggled_or_destroyed(*old(self), *final(self)),
            old(self).status_view() is Ready ==> (final(self).status_view() is Ready
                || final(self).status_view() is Absent),
    {
        match toggle_step(self.overlay_status()) {
            ToggleStep::Create => self.create_overlay(),
            ToggleStep::Wait => {},
            ToggleStep::ToggleFocusOrDestroy => self.toggle_focus_or_destroy_overlay(),
        }
    }
}

/// A stroke drawn live draws what replaying it draws: a stroke started at a
/// point draws the dot there, and each point it gains adds the line from its
/// last point.
pub proof fn lemma_stroke_ops_grow(st: StrokeView, pos: Point)
    ensures
        stroke_ops(StrokeView { points: seq![pos], ..st }) == seq![
            CanvasOp::DrawCircle { center: pos, radius: st.brush_radius, color: st.color },
        ],
        st.points.len() > 0 ==> stroke_ops(StrokeView { points: st.points.push(pos), ..st })
            == stroke_ops(st).push(
            CanvasOp::DrawLine {
                from: st.points.last(),
                to: pos,
                radius: st.brush_radius,
                color: st.color,
            },
        ),
{
    let one = StrokeView { points: seq![pos], ..st };
    assert(stroke_ops(one) =~= seq![
        CanvasOp::DrawCircle { center: pos, radius: st.brush_radius, color: st.color },
    ]);
    if st.points.len() > 0 {
        let longer = StrokeView { points: st.points.push(pos), ..st };
        assert(stroke_ops(longer) =~= stroke_ops(st).push(
            CanvasOp::DrawLine {
                from: st.points.last(),
                to: pos,
                radius: st.brush_radius,
                color: st.color,
            },
        ));
    }
}

/// Replaying a history with one more entry replays the shorter history, then
/// the entry.
pub proof fn lemma_replay_push(history: Seq<HistoryEntry>, e: HistoryEntry)
    ensures
        replay(history.push(e)) == replay(history) + entry_ops(e),
{
    assert(history.push(e).drop_last() =~= history);
}

/// Undo takes back a finished stroke: the history is the one before the
/// stroke, redrawn from a cleared canvas.
pub proof fn lemma_undo_after_stroke(d: OverlayData)
    requires
        d.current_stroke is Some,
    ensures
        apply_data(ended(d), Action::Undo).0.history == d.history,
        apply_data(ended(d), Action::Undo).1 == seq![CanvasOp::Clear] + replay(d.history),
{
    assert(ended(d).history.drop_last() =~= d.history);
}

/// Undo takes back a clear, or a change of background: the history is the
/// one before it, redrawn from a cleared canvas.
pub proof fn lemma_undo_after_clear(d: OverlayData, action: Action)
    requires
        action is Clear || (action matches Action::SetBackground(c) && c != d.background_color),
    ensures
        apply_data(apply_data(d, action).0, Action::Undo).0.history == d.history,
        apply_data(apply_data(d, action).0, Action::Undo).1 == seq![CanvasOp::Clear] + replay(d.history),
{
    assert(apply_data(d, action).0.history.drop_last() =~= d.history);
}

/// Whether `outer` holds all of `inner`.
pub open spec fn rect_contains(outer: Rect, inner: Rect) -> bool {
    &&& outer.x <= inner.x
    &&& outer.y <= inner.y
    &&& inner.x + inner.width <= outer.x + outer.width
    &&& inner.y + inner.height <= outer.y + outer.height
}

/// The damage taken holds every non-empty rectangle marked, and fits.
pub proof fn lemma_bounding_covers(rs: Seq<Rect>)
    requires
        forall|i: int| 0 <= i < rs.len() ==> #[trigger] rect_fits(rs[i]),
    ensures
        bounding(rs) matches Some(b) ==> rect_fits(b) && is_nonempty(b),
        forall|i: int|
            0 <= i < rs.len() && is_nonempty(#[trigger] rs[i]) ==> (bounding(rs) matches Some(b)
                && rect_contains(b, rs[i])),
    decreases rs.len(),
{
    if rs.len() > 0 {
        let prev = rs.drop_last();
        lemma_bounding_covers(prev);
        let r = rs.last();
        assert(rect_fits(r) && rs[rs.len() - 1] == r);
        if is_nonempty(r) {
            if let Some(acc) = bounding(prev) {
                let x1: int = if acc.x <= r.x { acc.x as int } else { r.x as int };
                let y1: int = if acc.y <= r.y { acc.y as int } else { r.y as int };
                let x2: int = if acc.x + acc.width >= r.x + r.width { acc.x + acc.width } else { r.x + r.width };
                let y2: int = if acc.y + acc.height >= r.y + r.height { acc.y + acc.height } else { r.y + r.height };
                assert(0 <= x1 && x2 <= i32::MAX && 0 <= y1 && y2 <= i32::MAX);
                assert(x2 - x1 > 0 && y2 - y1 > 0);
                let u = union_rect(acc, r);
                assert(u.x == x1 && u.y == y1 && u.width == x2 - x1 && u.height == y2 - y1);
            }
        }
        assert forall|i: int|
            0 <= i < rs.len() && is_nonempty(#[trigger] rs[i]) implies (bounding(rs) matches Some(b)
                && rect_contains(b, rs[i])) by {
            if i < rs.len() - 1 {
                assert(prev[i] == rs[i]);
            }
        }
    }
}

/// Replaying a history that ends with a clear or a background change of
/// color `c` redraws everything before it and then fills the canvas with
/// `c`: a clear is never skipped.
pub proof fn lemma_replay_redraws_clears(history: Seq<HistoryEntry>, c: Color)
    ensures
        replay(history.push(HistoryEntry::Clear(c))) == replay(history).push(CanvasOp::Fill(c)),
        replay(history.push(HistoryEntry::Clear(c))).last() == CanvasOp::Fill(c),
{
    assert(history.push(HistoryEntry::Clear(c)).drop_last() =~= history);
    assert(replay(history).push(CanvasOp::Fill(c)) =~= replay(history) + seq![CanvasOp::Fill(c)]);
}

/// Replaying a history that ends with a stroke redraws everything before it
/// and then the stroke: a dot of its radius and color at its first point,
/// and a line from each point to the next.
pub proof fn lemma_replay_redraws_strokes(history: Seq<HistoryEntry>, st: StrokeView)
    requires
        st.points.len() > 0,
    ensures
        ({
            let before = replay(history);
            let after = replay(history.push(HistoryEntry::Stroke(st)));
            &&& after.len() == before.len() + st.points.len()
            &&& after.take(before.len() as int) == before
            &&& after[before.len() as int] == CanvasOp::DrawCircle {
                center: st.points[0],
                radius: st.brush_radius,
                color: st.color,
            }
            &&& forall|k: int|
                1 <= k < st.points.len() ==> #[trigger] after[before.len() + k] == CanvasOp::DrawLine {
                    from: st.points[k - 1],
                    to: st.points[k],
                    radius: st.brush_radius,
                    color: st.color,
                }
        }),
{
    let before = replay(history);
    let after = replay(history.push(HistoryEntry::Stroke(st)));
    assert(history.push(HistoryEntry::Stroke(st)).drop_last() =~= history);
    assert(after == before + stroke_ops(st));
    assert(after.take(before.len() as int) =~= before);
    assert forall|k: int| 1 <= k < st.points.len() implies #[trigger] after[before.len() + k] == CanvasOp::DrawLine {
        from: st.points[k - 1],
        to: st.points[k],
        radius: st.brush_radius,
        color: st.color,
    } by {
        assert(after[before.len() + k] == stroke_ops(st)[k]);
    }
}

/// Undo redraws what it keeps from a cleared canvas, and a clear or
/// background change of color `c` that it keeps is redrawn as a fill with
/// `c`: undoing the entry after it leaves the canvas filled with `c`.
pub proof fn lemma_undo_keeps_clears(d: OverlayData, kept: Seq<HistoryEntry>, c: Color, undone: HistoryEntry)
    requires
        d.history == kept.push(HistoryEntry::Clear(c)).push(undone),
    ensures
        apply_data(d, Action::Undo).0.history == kept.push(HistoryEntry::Clear(c)),
        apply_data(d, Action::Undo).1[0] == CanvasOp::Clear,
        apply_data(d, Action::Undo).1.last() == CanvasOp::Fill(c),
        apply_data(d, Action::Undo).1 == seq![CanvasOp::Clear] + replay(kept).push(CanvasOp::Fill(c)),
{
    assert(d.history.drop_last() =~= kept.push(HistoryEntry::Clear(c)));
    lemma_replay_redraws_clears(kept, c);
}

/// Clearing paints the canvas with the background color in use and records
/// that color: after the background is set to `c`, a clear fills with `c`
/// and its history entry is a clear of `c`; the rest of the drawing state is
/// untouched.
pub proof fn lemma_clear_uses_background(d: OverlayData, c: Color)
    ensures
        apply_data(d, Action::Clear).1 == seq![CanvasOp::Fill(d.background_color)],
        apply_data(d, Action::Clear).0.history == d.history.push(HistoryEntry::Clear(d.background_color)),
        apply_data(d, Action::Clear).0.background_color == d.background_color,
        ({
            let set = apply_data(d, Action::SetBackground(c)).0;
            let cleared = apply_data(set, Action::Clear);
            &&& set.background_color == c
            &&& cleared.1 == seq![CanvasOp::Fill(c)]
            &&& cleared.0.history.last() == HistoryEntry::Clear(c)
            &&& cleared.0.history.len() == set.history.len() + 1
        }),
{
}

/// Each key is bound to what the key table promises, whether the context
/// menu is open or not: r, g, b, y, m and n to the pens of red, green, blue,
/// yellow, magenta and cyan, e to the eraser, the period, comma and slash to
/// black, white and transparent backgrounds, c to clear and u to undo; with
/// the menu closed, space opens it, Escape hides the overlay and F1 toggles
/// the help panel.
pub proof fn lemma_key_bindings(menu_open: bool)
    ensures
        spec_match_accel(menu_open, Key::R) == Some(Action::SetTool(Tool::Pen(Color { a: 255, r: 255, g: 0, b: 0 }))),
        spec_match_accel(menu_open, Key::G) == Some(Action::SetTool(Tool::Pen(Color { a: 255, r: 0, g: 255, b: 0 }))),
        spec_match_accel(menu_open, Key::B) == Some(Action::SetTool(Tool::Pen(Color { a: 255, r: 0, g: 0, b: 255 }))),
        spec_match_accel(menu_open, Key::Y) == Some(Action::SetTool(Tool::Pen(Color { a: 255, r: 255, g: 255, b: 0 }))),
        spec_match_accel(menu_open, Key::M) == Some(Action::SetTool(Tool::Pen(Color { a: 255, r: 255, g: 0, b: 255 }))),
        spec_match_accel(menu_open, Key::N) == Some(Action::SetTool(Tool::Pen(Color { a: 255, r: 0, g: 255, b: 255 }))),
        spec_match_accel(menu_open, Key::E) == Some(Action::SetTool(Tool::Eraser)),
        spec_match_accel(menu_open, Key::Period) == Some(Action::SetBackground(Color { a: 255, r: 0, g: 0, b: 0 })),
        spec_match_accel(menu_open, Key::Comma) == Some(Action::SetBackground(Color { a: 255, r: 255, g: 255, b: 255 })),
        spec_match_accel(menu_open, Key::Slash) == Some(Action::SetBackground(Color { a: 0, r: 0, g: 0, b: 0 })),
        spec_match_accel(menu_open, Key::C) == Some(Action::Clear),
        spec_match_accel(menu_open, Key::U) == Some(Action::Undo),
        !menu_open ==> spec_match_accel(menu_open, Key::Space) == Some(Action::OpenContextMenu),
        !menu_open ==> spec_match_accel(menu_open, Key::Escape) == Some(Action::HideOverlay),
        !menu_open ==> spec_match_accel(menu_open, Key::F1) == Some(Action::ToggleHelp),
{
    reveal_with_fuel(first_match, 20);
}

} // verus!
