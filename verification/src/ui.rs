//! The context menu: its items, their layout, hovering, keyboard focus and
//! what pointer buttons do to it. Drawing it is left to the application,
//! which also measures the menu's texts.

use vstd::prelude::*;

use crate::actions::{
    any_menu_accels, no_menu_accels, spec_any_menu_accels, spec_no_menu_accels, Action,
    FocusDirection, Key,
};
use crate::canvas::{Color, PixelPos, Point, Rect};
use crate::waydoodle::{InputButton, Tool};

verus! {

/// A clickable part of the menu.
#[derive(Debug, Clone, Copy, PartialEq, Eq)]
pub struct MenuButton {
    pub id: usize,
    pub action: Action,
    pub rect: Rect,
    pub accel: &'static str,
}

/// A button showing a color swatch.
#[derive(Debug, Clone, Copy, PartialEq, Eq)]
pub struct SwatchMenuItem {
    pub swatch: Color,
    pub btn: MenuButton,
}

/// A button spanning a whole row, with a label.
#[derive(Debug, Clone, Copy, PartialEq, Eq)]
pub struct RowMenuItem {
    pub label: &'static str,
    pub btn: MenuButton,
}

/// A row of the menu: a labelled category of swatches, or a single item.
#[derive(Debug, Clone, PartialEq, Eq)]
pub enum MenuComponent {
    Category { name: &'static str, label_rect: Rect, items: Vec<SwatchMenuItem> },
    Item(RowMenuItem),
}

/// The label shown for the key bound to an action.
pub open spec fn spec_accel_label(key: Key) -> &'static str {
    match key {
        Key::Space => "Space",
        Key::Escape => "Esc",
        Key::R => "R",
        Key::G => "G",
        Key::B => "B",
        Key::Y => "Y",
        Key::M => "M",
        Key::N => "N",
        Key::E => "E",
        Key::Period => ".",
        Key::Comma => ",",
        Key::Slash => "/",
        Key::C => "C",
        Key::U => "U",
        Key::Return => "Return",
        Key::Up => "Up",
        Key::Down => "Down",
        Key::Left => "Left",
        Key::Right => "Right",
        Key::F1 => "F1",
        Key::Other => "?",
    }
}

/// The label shown for the key bound to an action.
pub fn accel_label(key: Key) -> (res: &'static str)
    ensures
        res == spec_accel_label(key),
{
    match key {
        Key::Space => "Space",
        Key::Escape => "Esc",
        Key::R => "R",
        Key::G => "G",
        Key::B => "B",
        Key::Y => "Y",
        Key::M => "M",
        Key::N => "N",
        Key::E => "E",
        Key::Period => ".",
        Key::Comma => ",",
        Key::Slash => "/",
        Key::C => "C",
        Key::U => "U",
        Key::Return => "Return",
        Key::Up => "Up",
        Key::Down => "Down",
        Key::Left => "Left",
        Key::Right => "Right",
        Key::F1 => "F1",
        Key::Other => "?",
    }
}

/// An empty rectangle at the origin, the position of a button before layout.
pub open spec fn zero_rect() -> Rect {
    Rect { x: 0, y: 0, width: 0, height: 0 }
}

/// Whether an action selects a pen.
pub open spec fn is_pen_action(action: Action) -> bool {
    action matches Action::SetTool(Tool::Pen(_))
}

/// Whether an action sets the background.
pub open spec fn is_background_action(action: Action) -> bool {
    action matches Action::SetBackground(_)
}

/// The swatch buttons made from the entries of `table` that satisfy
/// `keep`, numbered from `start_id` in table order.
pub open spec fn swatch_items(
    table: Seq<(Key, Action)>,
    keep: spec_fn(Action) -> bool,
    start_id: int,
) -> Seq<SwatchMenuItem>
    decreases table.len(),
{
    if table.len() == 0 {
        seq![]
    } else {
        let prev = swatch_items(table.drop_last(), keep, start_id);
        let (key, action) = table.last();
        if keep(action) {
            prev.push(
                SwatchMenuItem {
                    swatch: match action {
                        Action::SetTool(Tool::Pen(color)) => color,
                        Action::SetBackground(color) => color,
                        _ => Color::transparent(),
                    },
                    btn: MenuButton {
                        id: (start_id + prev.len()) as usize,
                        action,
                        rect: zero_rect(),
                        accel: spec_accel_label(key),
                    },
                },
            )
        } else {
            prev
        }
    }
}

/// The label of the first key of `table` bound to `action`, or "".
pub open spec fn accel_for_action(table: Seq<(Key, Action)>, action: Action) -> &'static str
    decreases table.len(),
{
    if table.len() == 0 {
        ""
    } else if table[0].1 == action {
        spec_accel_label(table[0].0)
    } else {
        accel_for_action(table.drop_first(), action)
    }
}

/// The row item for `action`, labelled `label`, with id `id`.
pub open spec fn spec_row_item(id: usize, label: &'static str, action: Action) -> RowMenuItem {
    RowMenuItem {
        label,
        btn: MenuButton {
            id,
            action,
            rect: zero_rect(),
            accel: accel_for_action(spec_any_menu_accels() + spec_no_menu_accels(), action),
        },
    }
}

fn build_swatch_items(start_id: usize, pens: bool) -> (res: Vec<SwatchMenuItem>)
    requires
        start_id <= 1000,
    ensures
        res@ == swatch_items(
            spec_any_menu_accels(),
            if pens {
                |a: Action| is_pen_action(a)
            } else {
                |a: Action| is_background_action(a)
            },
            start_id as int,
        ),
        res@.len() <= spec_any_menu_accels().len(),
        forall|j: int| 0 <= j < res@.len() ==> #[trigger] res@[j].btn.id == start_id + j,
        forall|j: int| 0 <= j < res@.len() ==> is_item_action(#[trigger] res@[j].btn.action),
{
    let ghost keep = if pens {
        |a: Action| is_pen_action(a)
    } else {
        |a: Action| is_background_action(a)
    };
    let table = any_menu_accels();
    let mut res: Vec<SwatchMenuItem> = Vec::new();
    let mut i: usize = 0;
    while i < table.len()
        invariant
            i <= table.len(),
            table@ == spec_any_menu_accels(),
            start_id <= 1000,
            res@ == swatch_items(table@.take(i as int), keep, start_id as int),
            res@.len() <= i,
            forall|j: int| 0 <= j < res@.len() ==> #[trigger] res@[j].btn.id == start_id + j,
            forall|j: int| 0 <= j < res@.len() ==> is_item_action(#[trigger] res@[j].btn.action),
            keep == (if pens {
                |a: Action| is_pen_action(a)
            } else {
                |a: Action| is_background_action(a)
            }),
        decreases table.len() - i,
    {
        assert(table@.take(i + 1).drop_last() =~= table@.take(i as int));
        let (key, action) = table[i];
        let kept = match action {
            Action::SetTool(Tool::Pen(_)) => pens,
            Action::SetBackground(_) => !pens,
            _ => false,
        };
        if kept {
            let swatch = match action {
                Action::SetTool(Tool::Pen(color)) => color,
                Action::SetBackground(color) => color,
                _ => Color::transparent(),
            };
            let id = start_id + res.len();
            res.push(
                SwatchMenuItem {
                    swatch,
                    btn: MenuButton { id, action, rect: Rect::new(0, 0, 0, 0), accel: accel_label(key) },
                },
            );
        }
        i = i + 1;
    }
    assert(table@.take(table@.len() as int) =~= table@);
    res
}

fn build_row_menu_item(id: usize, label: &'static str, action: Action) -> (res: RowMenuItem)
    ensures
        res == spec_row_item(id, label, action),
{
    let mut table = any_menu_accels();
    let mut extra = no_menu_accels();
    table.append(&mut extra);
    assert(table@ =~= spec_any_menu_accels() + spec_no_menu_accels());
    let mut accel: &'static str = "";
    let mut i: usize = 0;
    let ghost t = table@;
    assert(t.skip(0) =~= t);
    while i < table.len()
        invariant
            i <= table.len(),
            table@ == t,
            t == spec_any_menu_accels() + spec_no_menu_accels(),
            accel_for_action(t, action) == accel_for_action(t.skip(i as int), action),
            accel == "",
        decreases table.len() - i,
    {
        assert(t.skip(i as int).drop_first() =~= t.skip(i + 1));
        if table[i].1 == action {
            accel = accel_label(table[i].0);
            return RowMenuItem {
                label,
                btn: MenuButton { id, action, rect: Rect::new(0, 0, 0, 0), accel },
            };
        }
        i = i + 1;
    }
    RowMenuItem { label, btn: MenuButton { id, action, rect: Rect::new(0, 0, 0, 0), accel } }
}


/// A menu row as a mathematical value.
pub ghost enum ComponentView {
    Category { name: &'static str, label_rect: Rect, items: Seq<SwatchMenuItem> },
    Item(RowMenuItem),
}

impl View for MenuComponent {
    type V = ComponentView;

    open spec fn view(&self) -> ComponentView {
        match self {
            MenuComponent::Category { name, label_rect, items } => ComponentView::Category {
                name: *name,
                label_rect: *label_rect,
                items: items@,
            },
            MenuComponent::Item(item) => ComponentView::Item(*item),
        }
    }
}

/// The rows of a menu, as values.
pub open spec fn rows_view(rows: Seq<MenuComponent>) -> Seq<ComponentView> {
    rows.map_values(|c: MenuComponent| c@)
}

/// The menu as built, before layout.
pub open spec fn spec_build_menu() -> Seq<ComponentView> {
    let pens = swatch_items(spec_any_menu_accels(), |a: Action| is_pen_action(a), 0);
    let eraser_id = pens.len();
    let backgrounds = swatch_items(
        spec_any_menu_accels(),
        |a: Action| is_background_action(a),
        (eraser_id + 1) as int,
    );
    let clear_id = eraser_id + 1 + backgrounds.len();
    seq![
        ComponentView::Category { name: "Pen", label_rect: zero_rect(), items: pens },
        ComponentView::Item(spec_row_item(eraser_id as usize, "Eraser", Action::SetTool(Tool::Eraser))),
        ComponentView::Category { name: "Background", label_rect: zero_rect(), items: backgrounds },
        ComponentView::Item(spec_row_item(clear_id as usize, "Clear screen", Action::Clear)),
        ComponentView::Item(spec_row_item((clear_id + 1) as usize, "Undo", Action::Undo)),
        ComponentView::Item(spec_row_item((clear_id + 2) as usize, "Hide overlay", Action::HideOverlay)),
    ]
}

/// The buttons of a row, in order.
pub open spec fn component_buttons(c: ComponentView) -> Seq<MenuButton> {
    match c {
        ComponentView::Category { items, .. } => items.map_values(|it: SwatchMenuItem| it.btn),
        ComponentView::Item(item) => seq![item.btn],
    }
}

/// The buttons of all rows, in order.
pub open spec fn all_buttons(rows: Seq<ComponentView>) -> Seq<MenuButton>
    decreases rows.len(),
{
    if rows.len() == 0 {
        seq![]
    } else {
        all_buttons(rows.drop_last()) + component_buttons(rows.last())
    }
}

/// Whether an action is one a menu item can carry: it acts on the drawing
/// or the overlay, not on the menu itself.
pub open spec fn is_item_action(a: Action) -> bool {
    !(a is OpenContextMenu || a is CloseContextMenu || a is Focus || a is ApplyMenuSelection)
}

/// Whether every button carries an item action.
pub open spec fn no_menu_reentry(buttons: Seq<MenuButton>) -> bool {
    forall|i: int| 0 <= i < buttons.len() ==> is_item_action(#[trigger] buttons[i].action)
}

/// Whether every button's id is its position among all buttons.
pub open spec fn ids_are_positions(buttons: Seq<MenuButton>) -> bool {
    forall|i: int| 0 <= i < buttons.len() ==> #[trigger] buttons[i].id == i
}

/// Builds the rows of the menu: the pens, the eraser, the backgrounds,
/// clearing, undoing and hiding the overlay. Buttons are numbered in order.
fn build_menu() -> (res: Vec<MenuComponent>)
    ensures
        rows_view(res@) == spec_build_menu(),
        ids_are_positions(all_buttons(rows_view(res@))),
        no_menu_reentry(all_buttons(rows_view(res@))),
{
    let mut id: usize = 0;
    let pen_items = build_swatch_items(id, true);
    id = id + pen_items.len();
    let eraser_item = build_row_menu_item(id, "Eraser", Action::SetTool(Tool::Eraser));
    id = id + 1;
    let background_items = build_swatch_items(id, false);
    id = id + background_items.len();
    let clear_item = build_row_menu_item(id, "Clear screen", Action::Clear);
    id = id + 1;
    let undo_item = build_row_menu_item(id, "Undo", Action::Undo);
    id = id + 1;
    let hide_overlay_item = build_row_menu_item(id, "Hide overlay", Action::HideOverlay);
    let ghost pens = pen_items@;
    let ghost bgs = background_items@;
    let res = vec![
        MenuComponent::Category { name: "Pen", items: pen_items, label_rect: Rect::new(0, 0, 0, 0) },
        MenuComponent::Item(eraser_item),
        MenuComponent::Category {
            name: "Background",
            items: background_items,
            label_rect: Rect::new(0, 0, 0, 0),
        },
        MenuComponent::Item(clear_item),
        MenuComponent::Item(undo_item),
        MenuComponent::Item(hide_overlay_item),
    ];
    let ghost rows = rows_view(res@);
    assert(rows =~= spec_build_menu());
    proof {
        let b0 = all_buttons(rows.take(1));
        assert(rows.take(1).drop_last() =~= rows.take(0));
        assert(all_buttons(rows.take(0)) =~= Seq::<MenuButton>::empty());
        assert(rows.take(1).last() == rows[0]);
        assert(b0 =~= pens.map_values(|it: SwatchMenuItem| it.btn));
        let b1 = all_buttons(rows.take(2));
        assert(rows.take(2).drop_last() =~= rows.take(1));
        let b2 = all_buttons(rows.take(3));
        assert(rows.take(3).drop_last() =~= rows.take(2));
        let b3 = all_buttons(rows.take(4));
        assert(rows.take(4).drop_last() =~= rows.take(3));
        let b4 = all_buttons(rows.take(5));
        assert(rows.take(5).drop_last() =~= rows.take(4));
        assert(rows.take(6) =~= rows);
        assert(rows.drop_last() =~= rows.take(5));
        assert(ids_are_positions(b0));
        assert(ids_are_positions(b1));
        assert(forall|i: int| 0 <= i < bgs.len() ==> #[trigger] bgs[i].btn.id == pens.len() + 1 + i);
        assert(ids_are_positions(b2));
        assert(ids_are_positions(b3));
        assert(ids_are_positions(b4));
        assert(no_menu_reentry(b0));
        assert(no_menu_reentry(b1));
        assert(no_menu_reentry(b2));
        assert(no_menu_reentry(b3));
        assert(no_menu_reentry(b4));
    }
    res
}


/// Horizontal padding inside menu rows.
pub const PADDING_X: i32 = 5;

/// Vertical padding inside menu rows.
pub const PADDING_Y: i32 = 5;

/// Side of a color swatch.
pub const SWATCH_SIZE: i32 = 16;

/// The larger of two integers.
pub open spec fn max_int(a: int, b: int) -> int {
    if a >= b {
        a
    } else {
        b
    }
}

/// The height of a row, given the height of the font.
pub open spec fn row_height(row: ComponentView, font_height: int) -> int {
    match row {
        ComponentView::Category { .. } => 2 * PADDING_Y + max_int(font_height, SWATCH_SIZE as int),
        ComponentView::Item(_) => 2 * PADDING_Y + font_height,
    }
}

/// The width a row needs, given the widths of its texts: the category name,
/// or the item label and its accel label.
pub open spec fn row_width(row: ComponentView, widths: (i32, i32)) -> int {
    match row {
        ComponentView::Category { items, .. } => 2 * PADDING_X + widths.0 + (2 * PADDING_X
            + SWATCH_SIZE) * items.len(),
        ComponentView::Item(_) => PADDING_X + SWATCH_SIZE + PADDING_X + widths.0 + PADDING_X
            + widths.1 + PADDING_X,
    }
}

/// The width of the menu: that of its widest row.
pub open spec fn menu_width(rows: Seq<ComponentView>, widths: Seq<(i32, i32)>) -> int
    decreases rows.len(),
{
    if rows.len() == 0 {
        0
    } else {
        max_int(
            menu_width(rows.drop_last(), widths),
            row_width(rows.last(), widths[rows.len() - 1]),
        )
    }
}

/// The height of the menu: the sum of its rows' heights.
pub open spec fn menu_height(rows: Seq<ComponentView>, font_height: int) -> int
    decreases rows.len(),
{
    if rows.len() == 0 {
        0
    } else {
        menu_height(rows.drop_last(), font_height) + row_height(rows.last(), font_height)
    }
}

/// A row placed at `row_y` in a menu occupying `menu`.
pub open spec fn place_row(row: ComponentView, menu: Rect, row_y: int, row_h: int, widths: (i32, i32)) -> ComponentView {
    match row {
        ComponentView::Category { name, items, .. } => {
            let btn_w = 2 * PADDING_X + SWATCH_SIZE;
            let start = menu.x + menu.width - btn_w * items.len();
            ComponentView::Category {
                name,
                label_rect: Rect {
                    x: menu.x,
                    y: row_y as i32,
                    width: (2 * PADDING_X + widths.0) as i32,
                    height: row_h as i32,
                },
                items: Seq::new(
                    items.len(),
                    |i: int|
                        SwatchMenuItem {
                            swatch: items[i].swatch,
                            btn: MenuButton {
                                id: items[i].btn.id,
                                action: items[i].btn.action,
                                accel: items[i].btn.accel,
                                rect: Rect {
                                    x: (start + btn_w * i) as i32,
                                    y: row_y as i32,
                                    width: btn_w as i32,
                                    height: row_h as i32,
                                },
                            },
                        },
                ),
            }
        },
        ComponentView::Item(item) => ComponentView::Item(
            RowMenuItem {
                label: item.label,
                btn: MenuButton {
                    id: item.btn.id,
                    action: item.btn.action,
                    accel: item.btn.accel,
                    rect: Rect { x: menu.x, y: row_y as i32, width: menu.width, height: row_h as i32 },
                },
            },
        ),
    }
}

/// The rows placed one below the other from the top of `menu`.
pub open spec fn place_rows(
    rows: Seq<ComponentView>,
    widths: Seq<(i32, i32)>,
    font_height: int,
    menu: Rect,
) -> Seq<ComponentView>
    decreases rows.len(),
{
    if rows.len() == 0 {
        seq![]
    } else {
        let prev = rows.drop_last();
        place_rows(prev, widths, font_height, menu).push(
            place_row(
                rows.last(),
                menu,
                menu.y + menu_height(prev, font_height),
                row_height(rows.last(), font_height),
                widths[rows.len() - 1],
            ),
        )
    }
}

/// Whether the sizes that [`calc_origin`] places a menu with are sizes: the
/// menu's and the screen's sides are not negative.
pub open spec fn origin_fits(pos: PixelPos, menu_w: int, menu_h: int, screen_w: int, screen_h: int) -> bool {
    &&& 0 <= menu_w <= i32::MAX
    &&& 0 <= menu_h <= i32::MAX
    &&& 0 <= screen_w <= i32::MAX
    &&& 0 <= screen_h <= i32::MAX
}

/// The top-left corner of the menu: just below the pointer, or just above
/// it when there is no room below, then shifted to stay on the screen.
pub open spec fn spec_calc_origin(pos: PixelPos, menu_w: int, menu_h: int, screen_w: int, screen_h: int) -> (int, int) {
    let y0 = if pos.y + PADDING_Y + menu_h > screen_h {
        pos.y - menu_h - PADDING_Y
    } else {
        pos.y + PADDING_Y
    };
    let y1 = if y0 + menu_h > screen_h {
        screen_h - menu_h
    } else {
        y0
    };
    let y = if y1 < 0 {
        0
    } else {
        y1
    };
    let x0 = pos.x - menu_w / 2;
    let x1 = if x0 + menu_w > screen_w {
        screen_w - menu_w
    } else {
        x0
    };
    let x = if x1 < 0 {
        0
    } else {
        x1
    };
    (x, y)
}

/// Computes the menu origin (top-left corner) clamped to the screen. By
/// default the menu opens below the cursor; if there isn't enough space it
/// opens above.
fn calc_origin(pos: PixelPos, menu_w: i32, menu_h: i32, screen_w: i32, screen_h: i32) -> (res: (i32, i32))
    requires
        origin_fits(pos, menu_w as int, menu_h as int, screen_w as int, screen_h as int),
    ensures
        (res.0 as int, res.1 as int) == spec_calc_origin(pos, menu_w as int, menu_h as int, screen_w as int, screen_h as int),
{
    let (px, py) = (pos.x as i64, pos.y as i64);
    let (mw, mh) = (menu_w as i64, menu_h as i64);
    let (sw, sh) = (screen_w as i64, screen_h as i64);
    let draw_above = py + PADDING_Y as i64 + mh > sh;
    // shift some pixels to avoid overlapping the cursor
    let mut y = if draw_above {
        py - mh - PADDING_Y as i64
    } else {
        py + PADDING_Y as i64
    };
    if y + mh > sh {
        y = sh - mh;
    }
    if y < 0 {
        y = 0;
    }
    let mut x = px - mw / 2;
    if x + mw > sw {
        x = sw - mw;
    }
    if x < 0 {
        x = 0;
    }
    (x as i32, y as i32)
}


/// The number of rows of the menu.
pub const MENU_ROWS: usize = 6;

/// The texts of each row that the application measures for the layout: a
/// category's name (and ""), or an item's label and accel label.
pub open spec fn spec_row_texts(row: ComponentView) -> (&'static str, &'static str) {
    match row {
        ComponentView::Category { name, .. } => (name, ""),
        ComponentView::Item(item) => (item.label, item.btn.accel),
    }
}

proof fn lemma_menu_width_bounds(rows: Seq<ComponentView>, widths: Seq<(i32, i32)>, i: int)
    requires
        0 <= i < rows.len(),
    ensures
        row_width(rows[i], widths[i]) <= menu_width(rows, widths),
        menu_width(rows.take(i), widths) <= menu_width(rows, widths),
    decreases rows.len(),
{
    if i < rows.len() - 1 {
        lemma_menu_width_bounds(rows.drop_last(), widths, i);
        assert(rows.drop_last().take(i) =~= rows.take(i));
    } else {
        assert(rows.take(i) =~= rows.drop_last());
    }
}

proof fn lemma_menu_height_bounds(rows: Seq<ComponentView>, font_height: int, i: int)
    requires
        0 <= i <= rows.len(),
        font_height >= 0,
    ensures
        0 <= menu_height(rows.take(i), font_height) <= menu_height(rows, font_height),
    decreases rows.len(),
{
    if rows.len() > 0 {
        if i < rows.len() {
            lemma_menu_height_bounds(rows.drop_last(), font_height, i);
            assert(rows.drop_last().take(i) =~= rows.take(i));
        } else {
            assert(rows.take(i) =~= rows);
            lemma_menu_height_bounds(rows.drop_last(), font_height, i - 1);
            assert(rows.drop_last().take(i - 1) =~= rows.drop_last());
        }
    } else {
        assert(rows.take(i) =~= rows);
    }
}

/// The widths and heights of the menu computed from the measured texts.
pub open spec fn metrics_fit(font_height: int, widths: Seq<(i32, i32)>) -> bool {
    &&& widths.len() == MENU_ROWS
    &&& font_height >= 0
    &&& forall|i: int| 0 <= i < widths.len() ==> #[trigger] widths[i].0 >= 0 && widths[i].1 >= 0
    &&& menu_width(spec_build_menu(), widths) <= i32::MAX
    &&& menu_height(spec_build_menu(), font_height) <= i32::MAX
}

/// Whether `m` is the menu as opened for a pointer at `pos`: laid out from
/// the measured texts and placed by [`spec_calc_origin`], with nothing
/// hovered.
pub open spec fn is_fresh_menu(
    m: ContextMenu,
    pos: PixelPos,
    screen_width: int,
    screen_height: int,
    font_height: int,
    widths: Seq<(i32, i32)>,
) -> bool {
    let mw = menu_width(spec_build_menu(), widths);
    let mh = menu_height(spec_build_menu(), font_height);
    let origin = spec_calc_origin(pos, mw, mh, screen_width, screen_height);
    &&& m.wf()
    &&& m.spec_hover() is None
    &&& m.spec_rect() == Rect { x: origin.0 as i32, y: origin.1 as i32, width: mw as i32, height: mh as i32 }
    &&& m.rows() == place_rows(spec_build_menu(), widths, font_height, m.spec_rect())
}

/// The open context menu.
pub struct ContextMenu {
    components: Vec<MenuComponent>,
    hover: Option<usize>,
    rect: Rect,
}

impl ContextMenu {
    /// The rows of the menu.
    pub closed spec fn rows(&self) -> Seq<ComponentView> {
        rows_view(self.components@)
    }

    /// The id of the hovered or focused button.
    pub closed spec fn spec_hover(&self) -> Option<usize> {
        self.hover
    }

    /// The area the menu covers.
    pub closed spec fn spec_rect(&self) -> Rect {
        self.rect
    }

    /// All buttons, in order.
    pub open spec fn spec_buttons(&self) -> Seq<MenuButton> {
        all_buttons(self.rows())
    }

    /// Buttons are numbered by their position, and none applies the menu
    /// selection itself.
    pub open spec fn wf(&self) -> bool {
        &&& ids_are_positions(self.spec_buttons())
        &&& no_menu_reentry(self.spec_buttons())
    }

    /// The texts to measure for [`ContextMenu::new`], one pair per row.
    pub fn row_texts() -> (res: Vec<(&'static str, &'static str)>)
        ensures
            res@ == spec_build_menu().map_values(|r: ComponentView| spec_row_texts(r)),
    {
        let rows = build_menu();
        let mut res: Vec<(&'static str, &'static str)> = Vec::new();
        let mut i: usize = 0;
        while i < rows.len()
            invariant
                i <= rows.len(),
                rows_view(rows@) == spec_build_menu(),
                res@ == spec_build_menu().take(i as int).map_values(|r: ComponentView| spec_row_texts(r)),
            decreases rows.len() - i,
        {
            let texts = match &rows[i] {
                MenuComponent::Category { name, .. } => (*name, ""),
                MenuComponent::Item(item) => (item.label, item.btn.accel),
            };
            res.push(texts);
            proof {
                assert(spec_build_menu()[i as int] == rows@[i as int]@);
                assert(spec_build_menu().take(i + 1).map_values(|r: ComponentView| spec_row_texts(r))
                    =~= spec_build_menu().take(i as int).map_values(|r: ComponentView| spec_row_texts(r)).push(texts));
            }
            i = i + 1;
        }
        assert(spec_build_menu().take(i as int) =~= spec_build_menu());
        res
    }
}

fn row_extents(comp: &MenuComponent, font_height: i32, widths: (i32, i32)) -> (res: (i32, i32))
    requires
        font_height >= 0,
        widths.0 >= 0,
        widths.1 >= 0,
        row_width(comp@, widths) <= i32::MAX,
        row_height(comp@, font_height as int) <= i32::MAX,
    ensures
        res.0 == row_width(comp@, widths),
        res.1 == row_height(comp@, font_height as int),
{
    match comp {
        MenuComponent::Category { items, .. } => {
            let label_w = PADDING_X * 2 + widths.0;
            assert(PADDING_X * 2 + SWATCH_SIZE == 26);
            assert(26 * items@.len() <= i32::MAX);
            assert(items@.len() <= 100_000_000);
            let btns_w = (PADDING_X * 2 + SWATCH_SIZE) * (items.len() as i32);
            assert(btns_w == 26 * items@.len());
            let h = if font_height >= SWATCH_SIZE {
                font_height
            } else {
                SWATCH_SIZE
            };
            (label_w + btns_w, PADDING_Y * 2 + h)
        },
        MenuComponent::Item(_) => (
            PADDING_X + SWATCH_SIZE + PADDING_X + widths.0 + PADDING_X + widths.1 + PADDING_X,
            PADDING_Y * 2 + font_height,
        ),
    }
}

fn place_component(comp: &MenuComponent, menu: Rect, row_y: i32, row_h: i32, widths: (i32, i32)) -> (res: MenuComponent)
    requires
        widths.0 >= 0,
        menu.x >= 0,
        menu.width >= 0,
        menu.x + menu.width <= i32::MAX,
        row_width(comp@, widths) <= menu.width,
    ensures
        res@ == place_row(comp@, menu, row_y as int, row_h as int, widths),
{
    match comp {
        MenuComponent::Category { name, items, .. } => {
            let btn_w = PADDING_X * 2 + SWATCH_SIZE;
            assert(btn_w == 26);
            assert(items@.len() <= 100_000_000);
            let n = items.len() as i32;
            let label_rect = Rect::new(menu.x, row_y, PADDING_X * 2 + widths.0, row_h);
            let start = menu.x + menu.width - btn_w * n;
            let mut btn_x = start;
            let mut placed: Vec<SwatchMenuItem> = Vec::new();
            let mut i: usize = 0;
            while i < items.len()
                invariant
                    i <= items.len(),
                    n == items@.len(),
                    n <= 100_000_000,
                    btn_w == 26,
                    start == menu.x + menu.width - 26 * n,
                    start >= menu.x,
                    btn_x == start + 26 * i,
                    menu.x + menu.width <= i32::MAX,
                    placed@.len() == i,
                    forall|k: int| 0 <= k < i ==> #[trigger] placed@[k] == (SwatchMenuItem {
                        swatch: items@[k].swatch,
                        btn: MenuButton {
                            id: items@[k].btn.id,
                            action: items@[k].btn.action,
                            accel: items@[k].btn.accel,
                            rect: Rect { x: (start + 26 * k) as i32, y: row_y, width: 26, height: row_h },
                        },
                    }),
                decreases items.len() - i,
            {
                let item = items[i];
                placed.push(
                    SwatchMenuItem {
                        swatch: item.swatch,
                        btn: MenuButton {
                            id: item.btn.id,
                            action: item.btn.action,
                            accel: item.btn.accel,
                            rect: Rect::new(btn_x, row_y, btn_w, row_h),
                        },
                    },
                );
                btn_x = btn_x + btn_w;
                i = i + 1;
            }
            let res = MenuComponent::Category { name: *name, label_rect, items: placed };
            assert(res@ == place_row(comp@, menu, row_y as int, row_h as int, widths)) by {
                if let ComponentView::Category { items: pitems, .. } = place_row(comp@, menu, row_y as int, row_h as int, widths) {
                    assert(placed@ =~= pitems);
                }
            }
            res
        },
        MenuComponent::Item(item) => MenuComponent::Item(
            RowMenuItem {
                label: item.label,
                btn: MenuButton {
                    id: item.btn.id,
                    action: item.btn.action,
                    accel: item.btn.accel,
                    rect: Rect::new(menu.x, row_y, menu.width, row_h),
                },
            },
        ),
    }
}


proof fn lemma_place_row_keeps_ids(row: ComponentView, menu: Rect, row_y: int, row_h: int, widths: (i32, i32))
    ensures
        component_buttons(place_row(row, menu, row_y, row_h, widths)).len() == component_buttons(row).len(),
        forall|k: int| 0 <= k < component_buttons(row).len() ==>
            (#[trigger] component_buttons(place_row(row, menu, row_y, row_h, widths))[k]).id
                == component_buttons(row)[k].id && component_buttons(place_row(row, menu, row_y, row_h, widths))[k].action
                == component_buttons(row)[k].action,
{
}

proof fn lemma_place_rows_keeps_ids(rows: Seq<ComponentView>, widths: Seq<(i32, i32)>, font_height: int, menu: Rect)
    ensures
        all_buttons(place_rows(rows, widths, font_height, menu)).len() == all_buttons(rows).len(),
        forall|k: int| 0 <= k < all_buttons(rows).len() ==>
            (#[trigger] all_buttons(place_rows(rows, widths, font_height, menu))[k]).id == all_buttons(rows)[k].id
            && all_buttons(place_rows(rows, widths, font_height, menu))[k].action == all_buttons(rows)[k].action,
    decreases rows.len(),
{
    if rows.len() > 0 {
        let prev = rows.drop_last();
        lemma_place_rows_keeps_ids(prev, widths, font_height, menu);
        let placed = place_rows(rows, widths, font_height, menu);
        assert(placed.drop_last() =~= place_rows(prev, widths, font_height, menu));
        let r = place_row(rows.last(), menu, menu.y + menu_height(prev, font_height),
            row_height(rows.last(), font_height), widths[rows.len() - 1]);
        lemma_place_row_keeps_ids(rows.last(), menu, menu.y + menu_height(prev, font_height),
            row_height(rows.last(), font_height), widths[rows.len() - 1]);
        assert(placed.last() == r);
    }
}

impl ContextMenu {
    /// Builds and lays out the menu for a pointer at `pos` on a screen of the
    /// given size. `font_height` and `widths` are the measured height of the
    /// font and the widths of [`ContextMenu::row_texts`], rounded up.
    pub fn new(pos: PixelPos, screen_width: i32, screen_height: i32, font_height: i32, widths: &Vec<(i32, i32)>) -> (res: Self)
        requires
            metrics_fit(font_height as int, widths@),
            origin_fits(
                pos,
                menu_width(spec_build_menu(), widths@),
                menu_height(spec_build_menu(), font_height as int),
                screen_width as int,
                screen_height as int,
            ),
            spec_calc_origin(
                pos,
                menu_width(spec_build_menu(), widths@),
                menu_height(spec_build_menu(), font_height as int),
                screen_width as int,
                screen_height as int,
            ).1 + menu_height(spec_build_menu(), font_height as int) <= i32::MAX,
        ensures
            is_fresh_menu(res, pos, screen_width as int, screen_height as int, font_height as int, widths@),
    {
        let menu = build_menu();
        let ghost rows = spec_build_menu();
        let mut menu_w: i32 = 0;
        let mut menu_h: i32 = 0;
        let mut i: usize = 0;
        while i < menu.len()
            invariant
                i <= menu.len(),
                rows_view(menu@) == rows,
                rows == spec_build_menu(),
                metrics_fit(font_height as int, widths@),
                menu_w == menu_width(rows.take(i as int), widths@),
                menu_h == menu_height(rows.take(i as int), font_height as int),
            decreases menu.len() - i,
        {
            proof {
                lemma_menu_width_bounds(rows, widths@, i as int);
                lemma_menu_height_bounds(rows, font_height as int, i as int);
                lemma_menu_height_bounds(rows, font_height as int, i as int + 1);
                assert(rows.take(i + 1).drop_last() =~= rows.take(i as int));
                assert(rows.take(i + 1).last() == rows[i as int]);
                assert(menu@[i as int]@ == rows[i as int]);
            }
            let (w, h) = row_extents(&menu[i], font_height, widths[i]);
            if w > menu_w {
                menu_w = w;
            }
            menu_h = menu_h + h;
            i = i + 1;
        }
        assert(rows.take(menu@.len() as int) =~= rows);
        let (origin_x, origin_y) = calc_origin(pos, menu_w, menu_h, screen_width, screen_height);
        let menu_rect = Rect::new(origin_x, origin_y, menu_w, menu_h);
        let mut placed: Vec<MenuComponent> = Vec::new();
        let mut row_y = origin_y;
        i = 0;
        assert(rows_view(placed@) =~= place_rows(rows.take(0), widths@, font_height as int, menu_rect));
        while i < menu.len()
            invariant
                i <= menu.len(),
                rows_view(menu@) == rows,
                rows == spec_build_menu(),
                metrics_fit(font_height as int, widths@),
                menu_w == menu_width(rows, widths@),
                menu_h == menu_height(rows, font_height as int),
                menu_rect == (Rect { x: origin_x, y: origin_y, width: menu_w, height: menu_h }),
                origin_x >= 0,
                origin_x + menu_w <= i32::MAX,
                origin_y + menu_h <= i32::MAX,
                row_y == origin_y + menu_height(rows.take(i as int), font_height as int),
                rows_view(placed@) == place_rows(rows.take(i as int), widths@, font_height as int, menu_rect),
            decreases menu.len() - i,
        {
            proof {
                lemma_menu_width_bounds(rows, widths@, i as int);
                lemma_menu_height_bounds(rows, font_height as int, i as int);
                lemma_menu_height_bounds(rows, font_height as int, i as int + 1);
                assert(rows.take(i + 1).drop_last() =~= rows.take(i as int));
                assert(menu@[i as int]@ == rows[i as int]);
                assert(rows.take(i + 1).last() == rows[i as int]);
            }
            let (_, h) = row_extents(&menu[i], font_height, widths[i]);
            let comp = place_component(&menu[i], menu_rect, row_y, h, widths[i]);
            let ghost before = placed@;
            let ghost cv = comp@;
            placed.push(comp);
            proof {
                assert(rows_view(placed@) =~= rows_view(before).push(cv));
            }
            row_y = row_y + h;
            i = i + 1;
        }
        assert(rows.take(menu@.len() as int) =~= rows);
        let res = ContextMenu { components: placed, hover: None, rect: menu_rect };
        proof {
            lemma_place_rows_keeps_ids(rows, widths@, font_height as int, menu_rect);
        }
        res
    }
}


/// Whether the point lies inside the rectangle.
pub open spec fn spec_hit(r: Rect, x: int, y: int) -> bool {
    x >= r.x && x < r.x + r.width && y >= r.y && y < r.y + r.height
}

/// The id of the first button under the point.
pub open spec fn first_hit(buttons: Seq<MenuButton>, x: int, y: int) -> Option<usize>
    decreases buttons.len(),
{
    if buttons.len() == 0 {
        None
    } else if spec_hit(buttons[0].rect, x, y) {
        Some(buttons[0].id)
    } else {
        first_hit(buttons.drop_first(), x, y)
    }
}

/// The button selected by `hover`, when buttons are numbered by position.
pub open spec fn selected_in(buttons: Seq<MenuButton>, hover: Option<usize>) -> Option<MenuButton> {
    match hover {
        Some(h) => if h < buttons.len() {
            Some(buttons[h as int])
        } else {
            None
        },
        None => None,
    }
}

/// Lexicographic order on pairs.
pub open spec fn lex_lt(a: (int, int), b: (int, int)) -> bool {
    a.0 < b.0 || (a.0 == b.0 && a.1 < b.1)
}

/// Lexicographic order on pairs, or equality.
pub open spec fn lex_le(a: (int, int), b: (int, int)) -> bool {
    !lex_lt(b, a)
}

/// The absolute value.
pub open spec fn abs_int(a: int) -> int {
    if a < 0 {
        -a
    } else {
        a
    }
}

/// Whether `b` lies in `dir` from `cur`.
pub open spec fn in_direction(dir: FocusDirection, cur: Rect, b: Rect) -> bool {
    match dir {
        FocusDirection::Up => b.y - cur.y < 0,
        FocusDirection::Down => b.y - cur.y > 0,
        FocusDirection::Left => b.x - cur.x < 0,
        FocusDirection::Right => b.x - cur.x > 0,
    }
}

/// How far `b` is from `cur` in `dir`: first along `dir`, then across it.
pub open spec fn direction_key(dir: FocusDirection, cur: Rect, b: Rect) -> (int, int) {
    let dx = b.x - cur.x;
    let dy = b.y - cur.y;
    match dir {
        FocusDirection::Up => (-dy, abs_int(dx)),
        FocusDirection::Down => (dy, abs_int(dx)),
        FocusDirection::Left => (-dx, abs_int(dy)),
        FocusDirection::Right => (dx, abs_int(dy)),
    }
}

/// The order in which the focus wraps around: by row for up and down, by
/// column for left and right.
pub open spec fn wrap_key(dir: FocusDirection, b: Rect) -> (int, int) {
    match dir {
        FocusDirection::Up | FocusDirection::Down => (b.y as int, b.x as int),
        FocusDirection::Left | FocusDirection::Right => (b.x as int, b.y as int),
    }
}

/// Moving up or left wraps to the last button in wrap order; down or right
/// to the first.
pub open spec fn wraps_to_max(dir: FocusDirection) -> bool {
    dir == FocusDirection::Up || dir == FocusDirection::Left
}

/// Whether some other button lies in `dir` from button `c`.
pub open spec fn has_neighbour(bs: Seq<MenuButton>, dir: FocusDirection, c: int) -> bool {
    exists|k: int| 0 <= k < bs.len() && k != c && #[trigger] in_direction(dir, bs[c].rect, bs[k].rect)
}

/// Whether `j` is the first of the nearest buttons in `dir` from button `c`.
pub open spec fn is_nearest(bs: Seq<MenuButton>, dir: FocusDirection, c: int, j: int) -> bool {
    &&& 0 <= j < bs.len()
    &&& j != c
    &&& in_direction(dir, bs[c].rect, bs[j].rect)
    &&& forall|k: int|
        0 <= k < bs.len() && k != c && #[trigger] in_direction(dir, bs[c].rect, bs[k].rect) ==> lex_le(
            direction_key(dir, bs[c].rect, bs[j].rect),
            direction_key(dir, bs[c].rect, bs[k].rect),
        ) && (k < j ==> lex_lt(
            direction_key(dir, bs[c].rect, bs[j].rect),
            direction_key(dir, bs[c].rect, bs[k].rect),
        ))
}

/// Whether `j` is where the focus wraps to: the last maximum or the first
/// minimum of all buttons in wrap order.
pub open spec fn is_wrap_target(bs: Seq<MenuButton>, dir: FocusDirection, j: int) -> bool {
    &&& 0 <= j < bs.len()
    &&& forall|k: int|
        0 <= k < bs.len() ==> if wraps_to_max(dir) {
            lex_le(wrap_key(dir, #[trigger] bs[k].rect), wrap_key(dir, bs[j].rect)) && (k > j ==> lex_lt(
                wrap_key(dir, bs[k].rect),
                wrap_key(dir, bs[j].rect),
            ))
        } else {
            lex_le(wrap_key(dir, bs[j].rect), wrap_key(dir, bs[k].rect)) && (k < j ==> lex_lt(
                wrap_key(dir, bs[j].rect),
                wrap_key(dir, bs[k].rect),
            ))
        }
}

/// Where the focus goes from button `c` in `dir`.
pub open spec fn is_focus_target(bs: Seq<MenuButton>, dir: FocusDirection, c: int, j: int) -> bool {
    if has_neighbour(bs, dir, c) {
        is_nearest(bs, dir, c, j)
    } else {
        is_wrap_target(bs, dir, j)
    }
}

fn lex_less(a0: i64, a1: i64, b0: i64, b1: i64) -> (res: bool)
    ensures
        res == lex_lt((a0 as int, a1 as int), (b0 as int, b1 as int)),
{
    a0 < b0 || (a0 == b0 && a1 < b1)
}

fn abs_i64(a: i64) -> (res: i64)
    requires
        a > i64::MIN,
    ensures
        res == abs_int(a as int),
{
    if a < 0 {
        -a
    } else {
        a
    }
}

fn direction_key_of(dir: FocusDirection, cur: Rect, b: Rect) -> (res: (i64, i64))
    ensures
        (res.0 as int, res.1 as int) == direction_key(dir, cur, b),
{
    let dx = b.x as i64 - cur.x as i64;
    let dy = b.y as i64 - cur.y as i64;
    match dir {
        FocusDirection::Up => (-dy, abs_i64(dx)),
        FocusDirection::Down => (dy, abs_i64(dx)),
        FocusDirection::Left => (-dx, abs_i64(dy)),
        FocusDirection::Right => (dx, abs_i64(dy)),
    }
}

fn wrap_key_of(dir: FocusDirection, b: Rect) -> (res: (i64, i64))
    ensures
        (res.0 as int, res.1 as int) == wrap_key(dir, b),
{
    match dir {
        FocusDirection::Up | FocusDirection::Down => (b.y as i64, b.x as i64),
        FocusDirection::Left | FocusDirection::Right => (b.x as i64, b.y as i64),
    }
}

fn is_in_direction(dir: FocusDirection, cur: Rect, b: Rect) -> (res: bool)
    ensures
        res == in_direction(dir, cur, b),
{
    let dx = b.x as i64 - cur.x as i64;
    let dy = b.y as i64 - cur.y as i64;
    match dir {
        FocusDirection::Up => dy < 0,
        FocusDirection::Down => dy > 0,
        FocusDirection::Left => dx < 0,
        FocusDirection::Right => dx > 0,
    }
}

/// Finds where the focus goes from button `c` in `dir`.
fn focus_target(bs: &Vec<MenuButton>, dir: FocusDirection, c: usize) -> (res: usize)
    requires
        c < bs@.len(),
    ensures
        is_focus_target(bs@, dir, c as int, res as int),
{
    let cur = bs[c].rect;
    let mut nearest: Option<usize> = None;
    let mut nearest_key: (i64, i64) = (0, 0);
    let mut wrap: usize = 0;
    let mut wrap_k: (i64, i64) = wrap_key_of(dir, bs[0].rect);
    let ghost s = bs@;
    let mut i: usize = 0;
    while i < bs.len()
        invariant
            i <= bs.len(),
            s == bs@,
            c < s.len(),
            cur == s[c as int].rect,
            match nearest {
                None => forall|k: int| 0 <= k < i && k != c ==> !#[trigger] in_direction(dir, cur, s[k].rect),
                Some(j) => {
                    &&& j < i
                    &&& j != c
                    &&& in_direction(dir, cur, s[j as int].rect)
                    &&& (nearest_key.0 as int, nearest_key.1 as int) == direction_key(dir, cur, s[j as int].rect)
                    &&& forall|k: int| 0 <= k < i && k != c && #[trigger] in_direction(dir, cur, s[k].rect) ==> lex_le(
                        direction_key(dir, cur, s[j as int].rect),
                        direction_key(dir, cur, s[k].rect),
                    ) && (k < j ==> lex_lt(
                        direction_key(dir, cur, s[j as int].rect),
                        direction_key(dir, cur, s[k].rect),
                    ))
                },
            },
            wrap < s.len(),
            i == 0 ==> wrap == 0,
            i > 0 ==> wrap < i,
            (wrap_k.0 as int, wrap_k.1 as int) == wrap_key(dir, s[wrap as int].rect),
            forall|k: int| 0 <= k < i ==> if wraps_to_max(dir) {
                lex_le(wrap_key(dir, #[trigger] s[k].rect), wrap_key(dir, s[wrap as int].rect)) && (k > wrap ==> lex_lt(
                    wrap_key(dir, s[k].rect),
                    wrap_key(dir, s[wrap as int].rect),
                ))
            } else {
                lex_le(wrap_key(dir, s[wrap as int].rect), wrap_key(dir, s[k].rect)) && (k < wrap ==> lex_lt(
                    wrap_key(dir, s[wrap as int].rect),
                    wrap_key(dir, s[k].rect),
                ))
            },
        decreases bs.len() - i,
    {
        let b = bs[i].rect;
        if i != c && is_in_direction(dir, cur, b) {
            let key = direction_key_of(dir, cur, b);
            match nearest {
                None => {
                    nearest = Some(i);
                    nearest_key = key;
                },
                Some(_) => {
                    if lex_less(key.0, key.1, nearest_key.0, nearest_key.1) {
                        nearest = Some(i);
                        nearest_key = key;
                    }
                },
            }
        }
        let wk = wrap_key_of(dir, b);
        let to_max = match dir {
            FocusDirection::Up | FocusDirection::Left => true,
            FocusDirection::Down | FocusDirection::Right => false,
        };
        if i > 0 {
            if to_max {
                if !lex_less(wk.0, wk.1, wrap_k.0, wrap_k.1) {
                    wrap = i;
                    wrap_k = wk;
                }
            } else {
                if lex_less(wk.0, wk.1, wrap_k.0, wrap_k.1) {
                    wrap = i;
                    wrap_k = wk;
                }
            }
        }
        i = i + 1;
    }
    match nearest {
        Some(j) => j,
        None => wrap,
    }
}

fn first_hit_id(bs: &Vec<MenuButton>, pos: PixelPos) -> (res: Option<usize>)
    ensures
        res == first_hit(bs@, pos.x as int, pos.y as int),
{
    let mut i: usize = 0;
    let ghost s = bs@;
    assert(s.skip(0) =~= s);
    while i < bs.len()
        invariant
            i <= bs.len(),
            s == bs@,
            first_hit(s, pos.x as int, pos.y as int) == first_hit(s.skip(i as int), pos.x as int, pos.y as int),
        decreases bs.len() - i,
    {
        assert(s.skip(i as int).drop_first() =~= s.skip(i + 1));
        let r = bs[i].rect;
        let x = pos.x as i64;
        let y = pos.y as i64;
        if x >= r.x as i64 && x < r.x as i64 + r.width as i64 && y >= r.y as i64 && y < r.y as i64
            + r.height as i64 {
            return Some(bs[i].id);
        }
        i = i + 1;
    }
    None
}

impl ContextMenu {
    /// All buttons, in order.
    fn buttons(&self) -> (res: Vec<MenuButton>)
        ensures
            res@ == self.spec_buttons(),
    {
        let mut res: Vec<MenuButton> = Vec::new();
        let mut i: usize = 0;
        let ghost rows = self.rows();
        while i < self.components.len()
            invariant
                i <= self.components.len(),
                rows == self.rows(),
                rows == rows_view(self.components@),
                res@ == all_buttons(rows.take(i as int)),
            decreases self.components.len() - i,
        {
            assert(rows.take(i + 1).drop_last() =~= rows.take(i as int));
            assert(rows.take(i + 1).last() == self.components@[i as int]@);
            match &self.components[i] {
                MenuComponent::Category { items, .. } => {
                    let ghost start = res@;
                    let mut k: usize = 0;
                    while k < items.len()
                        invariant
                            k <= items.len(),
                            res@ == start + items@.take(k as int).map_values(|it: SwatchMenuItem| it.btn),
                        decreases items.len() - k,
                    {
                        res.push(items[k].btn);
                        assert(items@.take(k + 1).map_values(|it: SwatchMenuItem| it.btn)
                            =~= items@.take(k as int).map_values(|it: SwatchMenuItem| it.btn).push(items@[k as int].btn));
                        k = k + 1;
                    }
                    assert(items@.take(items@.len() as int) =~= items@);
                },
                MenuComponent::Item(item) => {
                    res.push(item.btn);
                },
            }
            i = i + 1;
        }
        assert(rows.take(self.components@.len() as int) =~= rows);
        res
    }

    /// Updates the hovered button from the pointer position. Returns whether
    /// the hover changed, including entering or leaving the menu.
    pub fn update_hover(&mut self, pos: PixelPos) -> (changed: bool)
        ensures
            final(self).rows() == old(self).rows(),
            final(self).spec_rect() == old(self).spec_rect(),
            final(self).spec_hover() == first_hit(old(self).spec_buttons(), pos.x as int, pos.y as int),
            changed == (final(self).spec_hover() != old(self).spec_hover()),
    {
        let bs = self.buttons();
        let new_hover = first_hit_id(&bs, pos);
        if new_hover != self.hover {
            self.hover = new_hover;
            true
        } else {
            false
        }
    }

    /// The selected button.
    fn selected_button(&self) -> (res: Option<MenuButton>)
        requires
            self.wf(),
        ensures
            res == selected_in(self.spec_buttons(), self.spec_hover()),
    {
        let bs = self.buttons();
        match self.hover {
            None => None,
            Some(h) => {
                let mut i: usize = 0;
                while i < bs.len()
                    invariant
                        i <= bs.len(),
                        bs@ == self.spec_buttons(),
                        ids_are_positions(bs@),
                        self.hover == Some(h),
                        i <= h,
                    decreases bs.len() - i,
                {
                    assert(bs@[i as int].id == i);
                    if bs[i].id == h {
                        return Some(bs[i]);
                    }
                    i = i + 1;
                }
                None
            },
        }
    }

    /// The action of the selected button.
    pub fn selected_action(&self) -> (res: Option<Action>)
        requires
            self.wf(),
        ensures
            res == match selected_in(self.spec_buttons(), self.spec_hover()) {
                Some(b) => Some(b.action),
                None => None,
            },
    {
        match self.selected_button() {
            Some(b) => Some(b.action),
            None => None,
        }
    }

    /// Moves the focus to the next button in `direction`, wrapping around;
    /// without a focused button, up and left focus the last button, down
    /// and right the first.
    pub fn focus(&mut self, direction: FocusDirection)
        requires
            old(self).wf(),
        ensures
            final(self).wf(),
            final(self).rows() == old(self).rows(),
            final(self).spec_rect() == old(self).spec_rect(),
            ({
                let bs = old(self).spec_buttons();
                match selected_in(bs, old(self).spec_hover()) {
                    None => if bs.len() == 0 {
                        final(self).spec_hover() == old(self).spec_hover()
                    } else if wraps_to_max(direction) {
                        final(self).spec_hover() == Some((bs.len() - 1) as usize)
                    } else {
                        final(self).spec_hover() == Some(0usize)
                    },
                    Some(cur) => final(self).spec_hover() matches Some(j) && is_focus_target(bs, direction, cur.id as int, j as int),
                }
            }),
    {
        let bs = self.buttons();
        match self.selected_button() {
            Some(current) => {
                let j = focus_target(&bs, direction, current.id);
                self.hover = Some(bs[j].id);
            },
            None => {
                if bs.len() > 0 {
                    match direction {
                        FocusDirection::Up | FocusDirection::Left => {
                            self.hover = Some(bs[bs.len() - 1].id);
                        },
                        FocusDirection::Down | FocusDirection::Right => {
                            self.hover = Some(bs[0].id);
                        },
                    }
                }
            },
        }
    }
}


/// The action of the button that `hover` selects.
pub open spec fn action_at(buttons: Seq<MenuButton>, hover: Option<usize>) -> Option<Action> {
    match selected_in(buttons, hover) {
        Some(b) => Some(b.action),
        None => None,
    }
}

/// Whether the menu laid out from these measurements stays within 2^30
/// pixels, so that its placement cannot overflow for any pointer position.
pub open spec fn metrics_ok(font_height: int, widths: Seq<(i32, i32)>) -> bool {
    &&& metrics_fit(font_height, widths)
    &&& menu_width(spec_build_menu(), widths) <= 0x4000_0000
    &&& menu_height(spec_build_menu(), font_height) <= 0x4000_0000
}

proof fn lemma_origin_fits(pos: PixelPos, mw: int, mh: int, sw: int, sh: int)
    requires
        0 <= mw <= 0x4000_0000,
        0 <= mh <= 0x4000_0000,
        0 <= sw <= i32::MAX,
        0 <= sh <= i32::MAX,
    ensures
        origin_fits(pos, mw, mh, sw, sh),
        spec_calc_origin(pos, mw, mh, sw, sh).1 + mh <= i32::MAX,
{
}

/// The menu opens on the screen: its corner is never left of or above the
/// screen's, and a menu that fits on the screen stays within it. It opens
/// just below the pointer when it fits there, and otherwise just above it
/// when there is room above a pointer on the screen.
pub proof fn lemma_menu_origin_on_screen(pos: PixelPos, mw: int, mh: int, sw: int, sh: int)
    requires
        0 <= mw,
        0 <= mh,
    ensures
        spec_calc_origin(pos, mw, mh, sw, sh).0 >= 0,
        spec_calc_origin(pos, mw, mh, sw, sh).1 >= 0,
        mw <= sw ==> spec_calc_origin(pos, mw, mh, sw, sh).0 + mw <= sw,
        mh <= sh ==> spec_calc_origin(pos, mw, mh, sw, sh).1 + mh <= sh,
        pos.y + PADDING_Y + mh <= sh && pos.y + PADDING_Y >= 0 ==> spec_calc_origin(pos, mw, mh, sw, sh).1
            == pos.y + PADDING_Y,
        pos.y + PADDING_Y + mh > sh && pos.y - mh - PADDING_Y >= 0 && pos.y <= sh ==> spec_calc_origin(pos, mw, mh, sw, sh).1
            + mh + PADDING_Y == pos.y,
{
}

proof fn lemma_swatch_items_len(table: Seq<(Key, Action)>, keep: spec_fn(Action) -> bool, start_id: int)
    ensures
        swatch_items(table, keep, start_id).len() <= table.len(),
    decreases table.len(),
{
    if table.len() > 0 {
        lemma_swatch_items_len(table.drop_last(), keep, start_id);
    }
}

fn row_extents_wide(comp: &MenuComponent, font_height: i32, widths: (i32, i32)) -> (res: (i64, i64))
    requires
        font_height >= 0,
        widths.0 >= 0,
        widths.1 >= 0,
        comp@ matches ComponentView::Category { items, .. } ==> items.len() <= 12,
    ensures
        res.0 == row_width(comp@, widths),
        res.1 == row_height(comp@, font_height as int),
{
    match comp {
        MenuComponent::Category { items, .. } => {
            let n = items.len() as i64;
            let h: i64 = if font_height >= SWATCH_SIZE {
                font_height as i64
            } else {
                SWATCH_SIZE as i64
            };
            (2 * PADDING_X as i64 + widths.0 as i64 + (2 * PADDING_X as i64 + SWATCH_SIZE as i64) * n, 2
                * PADDING_Y as i64 + h)
        },
        MenuComponent::Item(_) => (
            PADDING_X as i64 + SWATCH_SIZE as i64 + PADDING_X as i64 + widths.0 as i64 + PADDING_X as i64
                + widths.1 as i64 + PADDING_X as i64,
            2 * PADDING_Y as i64 + font_height as i64,
        ),
    }
}

/// Whether the measured font height and text widths suit [`UI::new`]: see
/// [`metrics_ok`].
pub fn metrics_usable(font_height: i32, widths: &Vec<(i32, i32)>) -> (res: bool)
    ensures
        res == metrics_ok(font_height as int, widths@),
{
    if widths.len() != MENU_ROWS || font_height < 0 {
        return false;
    }
    let mut i: usize = 0;
    while i < widths.len()
        invariant
            i <= widths@.len(),
            forall|j: int| 0 <= j < i ==> #[trigger] widths@[j].0 >= 0 && widths@[j].1 >= 0,
        decreases widths@.len() - i,
    {
        if widths[i].0 < 0 || widths[i].1 < 0 {
            return false;
        }
        i = i + 1;
    }
    let menu = build_menu();
    let ghost rows = spec_build_menu();
    proof {
        lemma_swatch_items_len(spec_any_menu_accels(), |a: Action| is_pen_action(a), 0);
        let pens = swatch_items(spec_any_menu_accels(), |a: Action| is_pen_action(a), 0);
        lemma_swatch_items_len(spec_any_menu_accels(), |a: Action| is_background_action(a), (pens.len() + 1) as int);
    }
    let mut menu_w: i64 = 0;
    let mut menu_h: i64 = 0;
    let mut i: usize = 0;
    while i < menu.len()
        invariant
            i <= menu.len(),
            rows_view(menu@) == rows,
            rows == spec_build_menu(),
            rows.len() == MENU_ROWS,
            menu@.len() == MENU_ROWS,
            widths@.len() == MENU_ROWS,
            font_height >= 0,
            forall|j: int| 0 <= j < widths@.len() ==> #[trigger] widths@[j].0 >= 0 && widths@[j].1 >= 0,
            forall|j: int|
                0 <= j < rows.len() ==> (#[trigger] rows[j] matches ComponentView::Category { items, .. }
                    ==> items.len() <= 12),
            menu_w == menu_width(rows.take(i as int), widths@),
            menu_h == menu_height(rows.take(i as int), font_height as int),
            0 <= menu_w <= 0x2_0000_0000,
            0 <= menu_h <= 0x1_0000_0000 * i,
        decreases menu.len() - i,
    {
        proof {
            assert(rows.take(i + 1).drop_last() =~= rows.take(i as int));
            assert(rows.take(i + 1).last() == rows[i as int]);
            assert(menu@[i as int]@ == rows[i as int]);
        }
        let wi = widths[i];
        assert(wi == widths@[i as int] && wi.0 >= 0 && wi.1 >= 0);
        let (w, h) = row_extents_wide(&menu[i], font_height, wi);
        proof {
            match rows[i as int] {
                ComponentView::Category { items, .. } => {
                    assert(items.len() <= 12);
                    assert(w == 2 * PADDING_X + wi.0 + (2 * PADDING_X + SWATCH_SIZE) * items.len());
                    assert((2 * PADDING_X + SWATCH_SIZE) * items.len() <= 26 * 12) by (nonlinear_arith)
                        requires
                            items.len() <= 12,
                            PADDING_X == 5,
                            SWATCH_SIZE == 16,
                    ;
                },
                ComponentView::Item(_) => {
                    assert(w == PADDING_X + SWATCH_SIZE + PADDING_X + wi.0 + PADDING_X + wi.1 + PADDING_X);
                },
            }
            assert(PADDING_X == 5 && SWATCH_SIZE == 16);
            assert(w <= 0x2_0000_0000);
        }
        if w > menu_w {
            menu_w = w;
        }
        menu_h = menu_h + h;
        i = i + 1;
    }
    assert(rows.take(menu@.len() as int) =~= rows);
    menu_w <= 0x4000_0000 && menu_h <= 0x4000_0000
}

/// The overlay's user interface: the context menu, when open.
pub struct UI {
    width: i32,
    height: i32,
    font_height: i32,
    text_widths: Vec<(i32, i32)>,
    context_menu: Option<ContextMenu>,
    last_pointer_pos: Option<PixelPos>,
}

impl UI {
    /// The open menu, if any.
    pub closed spec fn menu(&self) -> Option<ContextMenu> {
        self.context_menu
    }

    /// The last position of the pointer, in pixels.
    pub closed spec fn last_pos(&self) -> Option<PixelPos> {
        self.last_pointer_pos
    }

    /// Whether `m` is a menu freshly opened by this UI at `pos`.
    pub closed spec fn opens_as(&self, m: ContextMenu, pos: PixelPos) -> bool {
        is_fresh_menu(m, pos, self.width as int, self.height as int, self.font_height as int, self.text_widths@)
    }

    /// The surface size and measurements stay the same.
    pub closed spec fn same_layout(&self, other: &UI) -> bool {
        self.width == other.width && self.height == other.height && self.font_height == other.font_height
            && self.text_widths@ == other.text_widths@
    }

    /// The UI's invariant.
    pub closed spec fn wf(&self) -> bool {
        &&& metrics_ok(self.font_height as int, self.text_widths@)
        &&& self.width >= 0
        &&& self.height >= 0
        &&& (self.context_menu matches Some(m) ==> m.wf())
        &&& (self.last_pointer_pos matches Some(p) ==> p.bounded())
    }

    /// A UI for a surface of the given size, with the font height and the
    /// widths of [`ContextMenu::row_texts`] as measured by the renderer.
    pub fn new(width: i32, height: i32, font_height: i32, text_widths: Vec<(i32, i32)>) -> (res: Self)
        requires
            width >= 0,
            height >= 0,
            metrics_ok(font_height as int, text_widths@),
        ensures
            res.wf(),
            res.menu() is None,
            res.last_pos() is None,
    {
        UI { width, height, font_height, text_widths, context_menu: None, last_pointer_pos: None }
    }

    fn make_menu(&self, pos: PixelPos) -> (res: ContextMenu)
        requires
            self.wf(),
            pos.bounded(),
        ensures
            self.opens_as(res, pos),
    {
        proof {
            let rows = spec_build_menu();
            lemma_menu_width_bounds(rows, self.text_widths@, 0);
            lemma_menu_height_bounds(rows, self.font_height as int, rows.len() as int);
            assert(rows.take(rows.len() as int) =~= rows);
            assert(menu_width(rows.take(0), self.text_widths@) == 0);
            lemma_origin_fits(
                pos,
                menu_width(spec_build_menu(), self.text_widths@),
                menu_height(spec_build_menu(), self.font_height as int),
                self.width as int,
                self.height as int,
            );
        }
        ContextMenu::new(pos, self.width, self.height, self.font_height, &self.text_widths)
    }

    /// A button press. Without a menu, the secondary button opens one at the
    /// pointer; with a menu open, any press closes it and yields the action
    /// of the button under the pointer. Returns that action and whether the
    /// press was taken by the menu.
    pub fn on_pointer_button_pressed(&mut self, pos: Point, btn: InputButton) -> (res: (Option<Action>, bool))
        requires
            old(self).wf(),
        ensures
            final(self).wf(),
            final(self).same_layout(old(self)),
            final(self).last_pos() == old(self).last_pos(),
            match old(self).menu() {
                None => if btn == InputButton::Secondary {
                    res == (None::<Action>, true) && (final(self).menu() matches Some(m) && old(self).opens_as(m, pos.spec_pixel()))
                } else {
                    res == (None::<Action>, false) && *final(self) == *old(self)
                },
                Some(m) => final(self).menu() is None && res == (
                    action_at(m.spec_buttons(), first_hit(m.spec_buttons(), pos.spec_pixel().x as int, pos.spec_pixel().y as int)),
                    true,
                ),
            },
    {
        let px = pos.pixel();
        match self.context_menu.take() {
            None => {
                if btn == InputButton::Secondary {
                    let menu = self.make_menu(px);
                    self.context_menu = Some(menu);
                    (None, true)
                } else {
                    (None, false)
                }
            },
            Some(mut menu) => {
                menu.update_hover(px);
                (menu.selected_action(), true)
            },
        }
    }

    /// A button release. With a menu open, the secondary button triggers the
    /// action under the pointer and closes the menu; other buttons only move
    /// the hover. Returns the action and whether the release was taken by
    /// the menu.
    pub fn on_pointer_button_released(&mut self, pos: Point, btn: InputButton) -> (res: (Option<Action>, bool))
        requires
            old(self).wf(),
        ensures
            final(self).wf(),
            final(self).same_layout(old(self)),
            final(self).last_pos() == old(self).last_pos(),
            match old(self).menu() {
                None => res == (None::<Action>, false) && *final(self) == *old(self),
                Some(m) => {
                    let hover = first_hit(m.spec_buttons(), pos.spec_pixel().x as int, pos.spec_pixel().y as int);
                    let action = if btn == InputButton::Secondary {
                        action_at(m.spec_buttons(), hover)
                    } else {
                        None
                    };
                    &&& res == (action, true)
                    &&& action is Some ==> final(self).menu() is None
                    &&& action is None ==> (final(self).menu() matches Some(m2) && m2.rows() == m.rows()
                        && m2.spec_rect() == m.spec_rect() && m2.spec_hover() == hover)
                },
            },
    {
        let px = pos.pixel();
        let action = match self.context_menu.as_mut() {
            None => {
                return (None, false);
            },
            Some(menu) => {
                let _ = menu.update_hover(px);
                if btn == InputButton::Secondary {
                    menu.selected_action()
                } else {
                    None
                }
            },
        };
        if action.is_some() {
            self.context_menu = None;
        }
        (action, true)
    }

    /// Pointer motion: remembers the position and moves the menu's hover.
    /// Returns whether the hover changed.
    pub fn on_pointer_motion(&mut self, pos: Point) -> (changed: bool)
        requires
            old(self).wf(),
        ensures
            final(self).wf(),
            final(self).same_layout(old(self)),
            final(self).last_pos() == Some(pos.spec_pixel()),
            match old(self).menu() {
                None => !changed && final(self).menu() is None,
                Some(m) => {
                    let hover = first_hit(m.spec_buttons(), pos.spec_pixel().x as int, pos.spec_pixel().y as int);
                    &&& final(self).menu() matches Some(m2) && m2.rows() == m.rows()
                        && m2.spec_rect() == m.spec_rect() && m2.spec_hover() == hover
                    &&& changed == (hover != m.spec_hover())
                },
            },
    {
        let px = pos.pixel();
        self.last_pointer_pos = Some(px);
        match self.context_menu.as_mut() {
            Some(menu) => menu.update_hover(px),
            None => false,
        }
    }

    /// Opens the menu at the last pointer position (or the top-left corner)
    /// unless it is already open.
    pub fn open_context_menu(&mut self)
        requires
            old(self).wf(),
        ensures
            final(self).wf(),
            final(self).same_layout(old(self)),
            final(self).last_pos() == old(self).last_pos(),
            opened(*old(self), *final(self)),
    {
        if self.context_menu.is_none() {
            let pos = match self.last_pointer_pos {
                Some(p) => p,
                None => PixelPos { x: 0, y: 0 },
            };
            let menu = self.make_menu(pos);
            self.context_menu = Some(menu);
        }
    }

    /// Moves the focus through the open menu, as [`ContextMenu::focus`] does.
    pub fn focus_menu_item(&mut self, direction: FocusDirection)
        requires
            old(self).wf(),
        ensures
            final(self).wf(),
            final(self).same_layout(old(self)),
            final(self).last_pos() == old(self).last_pos(),
            focused(*old(self), *final(self), direction),
    {
        if let Some(menu) = self.context_menu.as_mut() {
            menu.focus(direction);
        }
    }

    /// Closes the menu.
    pub fn close_context_menu(&mut self)
        requires
            old(self).wf(),
        ensures
            final(self).wf(),
            final(self).same_layout(old(self)),
            final(self).last_pos() == old(self).last_pos(),
            final(self).menu() is None,
    {
        self.context_menu = None;
    }

    /// Whether the menu is open.
    pub fn is_context_menu_open(&self) -> (res: bool)
        ensures
            res == self.menu() is Some,
    {
        self.context_menu.is_some()
    }

    /// The area of the open menu.
    pub fn context_menu_rect(&self) -> (res: Option<Rect>)
        ensures
            res == match self.menu() {
                Some(m) => Some(m.spec_rect()),
                None => None,
            },
    {
        match &self.context_menu {
            Some(menu) => Some(menu.rect),
            None => None,
        }
    }

    /// The action of the focused or hovered menu button.
    pub fn get_menu_selection(&self) -> (res: Option<Action>)
        requires
            self.wf(),
        ensures
            res == match self.menu() {
                Some(m) => action_at(m.spec_buttons(), m.spec_hover()),
                None => None,
            },
    {
        match &self.context_menu {
            Some(menu) => menu.selected_action(),
            None => None,
        }
    }

    /// The open menu, for drawing.
    pub fn context_menu(&self) -> (res: &Option<ContextMenu>)
        ensures
            *res == self.menu(),
    {
        &self.context_menu
    }
}

impl ContextMenu {
    /// The rows, for drawing.
    pub fn components(&self) -> (res: &Vec<MenuComponent>)
        ensures
            rows_view(res@) == self.rows(),
    {
        &self.components
    }

    /// The hovered or focused button's id, for drawing.
    pub fn hover(&self) -> (res: Option<usize>)
        ensures
            res == self.spec_hover(),
    {
        self.hover
    }

    /// The area the menu covers.
    pub fn rect(&self) -> (res: Rect)
        ensures
            res == self.spec_rect(),
    {
        self.rect
    }
}


/// Whether the focus moved from `old` to `new` in `direction`, as
/// [`ContextMenu::focus`] does, when a menu is open.
pub open spec fn focused(old: UI, new: UI, direction: FocusDirection) -> bool {
    &&& old.menu() is None ==> new.menu() is None
    &&& old.menu() matches Some(m) ==> (new.menu() matches Some(m2) && m2.rows() == m.rows()
        && m2.spec_rect() == m.spec_rect() && ({
        let bs = m.spec_buttons();
        match selected_in(bs, m.spec_hover()) {
            None => if bs.len() == 0 {
                m2.spec_hover() == m.spec_hover()
            } else if wraps_to_max(direction) {
                m2.spec_hover() == Some((bs.len() - 1) as usize)
            } else {
                m2.spec_hover() == Some(0usize)
            },
            Some(cur) => m2.spec_hover() matches Some(j) && is_focus_target(bs, direction, cur.id as int, j as int),
        }
    }))
}

/// Whether `new` has the menu of `old` opened at the last pointer position
/// (or the top-left corner), or kept as it was when already open.
pub open spec fn opened(old: UI, new: UI) -> bool {
    &&& old.menu() is Some ==> new.menu() == old.menu()
    &&& old.menu() is None ==> (new.menu() matches Some(m) && old.opens_as(
        m,
        match old.last_pos() {
            Some(p) => p,
            None => PixelPos { x: 0, y: 0 },
        },
    ))
}


/// The action of the selected menu button, when a menu is open.
pub open spec fn menu_selection(ui: UI) -> Option<Action> {
    match ui.menu() {
        Some(m) => action_at(m.spec_buttons(), m.spec_hover()),
        None => None,
    }
}

/// What an action does to the user interface.
pub open spec fn ui_effect(old: UI, new: UI, action: Action) -> bool {
    &&& new.same_layout(&old)
    &&& new.last_pos() == old.last_pos()
    &&& match action {
        Action::OpenContextMenu => opened(old, new),
        Action::Focus(d) => focused(old, new, d),
        Action::HideOverlay => new.menu() == old.menu(),
        Action::ToggleHelp => new.menu() == old.menu(),
        _ => new.menu() is None,
    }
}


/// A selected menu button never carries an action on the menu itself.
pub proof fn lemma_selection_is_item(ui: UI)
    requires
        ui.wf(),
    ensures
        menu_selection(ui) matches Some(a) ==> is_item_action(a),
{
    if let Some(m) = ui.menu() {
        if let Some(h) = m.spec_hover() {
            if h < m.spec_buttons().len() {
                assert(is_item_action(m.spec_buttons()[h as int].action));
            }
        }
    }
}


/// Keeping the layout is transitive.
pub proof fn lemma_same_layout_trans(a: UI, b: UI, c: UI)
    requires
        b.same_layout(&a),
        c.same_layout(&b),
    ensures
        c.same_layout(&a),
{
}


/// Keeping the layout is reflexive.
pub proof fn lemma_same_layout_refl(a: UI)
    ensures
        a.same_layout(&a),
{
}


/// An open menu of a well-formed interface is well formed.
pub proof fn lemma_menu_wf(ui: UI)
    requires
        ui.wf(),
    ensures
        ui.menu() matches Some(m) ==> m.wf(),
{
}

/// Whether the menu row `c` is a single item labelled `label` whose button
/// performs `action`.
pub open spec fn labelled_item(c: ComponentView, label: Seq<char>, action: Action) -> bool {
    c matches ComponentView::Item(it) && it.label@ == label && it.btn.action == action
}

/// Each labelled item of the context menu performs what its label names:
/// "Eraser" takes the eraser, "Clear screen" clears, "Undo" undoes and "Hide
/// overlay" hides the overlay, and each of these rows is there.
pub proof fn lemma_menu_items_do_what_they_say()
    ensures
        forall|i: int|
            0 <= i < spec_build_menu().len() ==> match #[trigger] spec_build_menu()[i] {
                ComponentView::Item(it) => {
                    &&& it.label@ == "Eraser"@ ==> it.btn.action == Action::SetTool(Tool::Eraser)
                    &&& it.label@ == "Clear screen"@ ==> it.btn.action == Action::Clear
                    &&& it.label@ == "Undo"@ ==> it.btn.action == Action::Undo
                    &&& it.label@ == "Hide overlay"@ ==> it.btn.action == Action::HideOverlay
                },
                _ => true,
            },
        exists|i: int| 0 <= i < spec_build_menu().len() && labelled_item(#[trigger] spec_build_menu()[i], "Eraser"@, Action::SetTool(Tool::Eraser)),
        exists|i: int| 0 <= i < spec_build_menu().len() && labelled_item(#[trigger] spec_build_menu()[i], "Clear screen"@, Action::Clear),
        exists|i: int| 0 <= i < spec_build_menu().len() && labelled_item(#[trigger] spec_build_menu()[i], "Undo"@, Action::Undo),
        exists|i: int| 0 <= i < spec_build_menu().len() && labelled_item(#[trigger] spec_build_menu()[i], "Hide overlay"@, Action::HideOverlay),
{
    reveal_strlit("Eraser");
    reveal_strlit("Clear screen");
    reveal_strlit("Undo");
    reveal_strlit("Hide overlay");
    let rows = spec_build_menu();
    assert("Eraser"@[0] == 'E' && "Clear screen"@[0] == 'C' && "Undo"@[0] == 'U' && "Hide overlay"@[0] == 'H');
    assert forall|i: int| 0 <= i < rows.len() implies match #[trigger] rows[i] {
        ComponentView::Item(it) => {
            &&& it.label@ == "Eraser"@ ==> it.btn.action == Action::SetTool(Tool::Eraser)
            &&& it.label@ == "Clear screen"@ ==> it.btn.action == Action::Clear
            &&& it.label@ == "Undo"@ ==> it.btn.action == Action::Undo
            &&& it.label@ == "Hide overlay"@ ==> it.btn.action == Action::HideOverlay
        },
        _ => true,
    } by {
        if i == 1 || i == 3 || i == 4 || i == 5 {
            let it = rows[i]->Item_0;
            assert(it.label@.len() > 0);
        }
    }
    assert(labelled_item(rows[1], "Eraser"@, Action::SetTool(Tool::Eraser)));
    assert(labelled_item(rows[3], "Clear screen"@, Action::Clear));
    assert(labelled_item(rows[4], "Undo"@, Action::Undo));
    assert(labelled_item(rows[5], "Hide overlay"@, Action::HideOverlay));
}

} // verus!
