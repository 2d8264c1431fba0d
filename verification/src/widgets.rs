use vstd::prelude::*;

use crate::card::{Card, CardKind};
use crate::font::{text_covers, text_fit};
use crate::frame::{
    col_of, in_box, row_of, BASE_VIEWPORT_HEIGHT, BASE_VIEWPORT_WIDTH, EXPEDITION_VIEWPORT_HEIGHT, HEIGHT, PIXELS, WIDTH,
};
use crate::labels::{
    card_kind_label, card_name_label, depart_block_label, label_over, FOOD_LABEL, LABEL_COUNT,
};
use crate::game::DepartBlockReason;
use crate::text::{append_int, decimal};
use crate::render::Renderer;

verus! {

pub const BLACK: u32 = 0x0f1117;
pub const PANEL: u32 = 0x202632;
pub const CARD: u32 = 0xd7c59a;
pub const TEXT: u32 = 0xe8edf2;
pub const MUTED_TEXT: u32 = 0x9aa5b1;
pub const WARNING: u32 = 0xe6b450;
/// Outer and inner colors of a button, plain and under the pointer.
pub const BUTTON_EDGE: u32 = 0xd7c59a;
pub const BUTTON_FACE: u32 = 0xbda87c;
pub const HOVER_EDGE: u32 = 0xf0d060;
pub const HOVER_FACE: u32 = 0xe6c66d;

/// The color at buffer index `i` after filling the box `w` × `h` at `(x, y)` over `under`.
pub open spec fn paint(under: u32, i: int, x: int, y: int, w: int, h: int, color: u32) -> u32 {
    if in_box(i, x, y, x + w, y + h) {
        color
    } else {
        under
    }
}

/// The color at buffer index `i` once `text` is written at `(x, y)` in `color`, at
/// `scale`, over `under` (as many characters as fit before the right edge).
pub open spec fn text_px(text: Seq<char>, x: int, y: int, scale: int, color: u32, under: u32, i: int) -> u32 {
    if text_covers(text, text_fit(x, scale), x, y, scale, i) {
        color
    } else {
        under
    }
}

/// The color at buffer index `i` once a side button with the label bitmap `l` is drawn in
/// the box `w` × `h` at `(x, y)` over `under`, lit when `hot`.
pub open spec fn side_button_px(l: Seq<u8>, x: int, y: int, w: int, h: int, hot: bool, under: u32, i: int) -> u32 {
    let edge = if hot { HOVER_EDGE } else { BUTTON_EDGE };
    let face = if hot { HOVER_FACE } else { BUTTON_FACE };
    label_over(l, x + w / 2, y + h / 2, BLACK, paint(paint(under, i, x, y, w, h, edge), i, x + 3, y + 3, w - 6, h - 6, face), i)
}

/// The color at buffer index `i` once a greyed-out button with the label bitmap `l` is
/// drawn in the box `w` × `h` at `(x, y)` over `under`.
pub open spec fn disabled_button_px(l: Seq<u8>, x: int, y: int, w: int, h: int, under: u32, i: int) -> u32 {
    label_over(l, x + w / 2, y + h / 2, MUTED_TEXT, paint(paint(under, i, x, y, w, h, 0x59606a), i, x + 3, y + 3, w - 6, h - 6, 0x3f4650), i)
}

/// The color at buffer index `i` once the stat row with the label bitmap `l` and the text
/// `value` is drawn at `(x, y)` over `under`.
pub open spec fn stat_row_px(l: Seq<u8>, value: Seq<char>, x: int, y: int, under: u32, i: int) -> u32 {
    text_px(value, x + 72, y - 7, 2, TEXT, label_over(l, x + 22, y, TEXT, under, i), i)
}

/// The color at buffer index `i` once the icon of material `index` (0 wood, 1 stone,
/// 2 food, none for another index) is drawn in the box of side `size` at `(x, y)` over
/// `under`. A part whose size would be negative is left out.
pub open spec fn resource_icon_px(index: int, x: int, y: int, size: int, under: u32, i: int) -> u32 {
    if index == 0 {
        paint(paint(paint(under, i, x + 8, y + 6, size - 16, size - 12, 0x8b5a35), i, x + 5, y + 11, size - 10, size - 14, 0x6b4329), i, x + 12, y + 4, 4, size - 8, 0xb57945)
    } else if index == 1 {
        let body = paint(under, i, x + 6, y + 14, size - 12, size - 10, 0x5f6872);
        let middle = if size >= 18 { paint(body, i, x + 12, y + 7, size - 18, size - 14, 0x8a929b) } else { body };
        if size >= 24 { paint(middle, i, x + 20, y + 12, size - 24, size - 18, 0xb0b7bf) } else { middle }
    } else if index == 2 {
        let berry = if size >= 18 { paint(under, i, x + 9, y + 12, size - 18, size - 12, 0xc44b6a) } else { under };
        let leaf = if size >= 26 { paint(berry, i, x + 13, y + 8, size - 26, size - 24, 0x4fa65e) } else { berry };
        if size >= 28 { paint(leaf, i, x + 20, y + 6, size - 28, size - 26, 0x3f8f4f) } else { leaf }
    } else {
        under
    }
}

/// The color at buffer index `i` once one material of a cost is drawn at `(x, y)` over
/// `under`: its icon and amount, in red and underlined when `available` does not cover
/// `amount`; nothing for an amount that is not positive.
pub open spec fn cost_part_px(index: int, amount: int, available: int, x: int, y: int, under: u32, i: int) -> u32 {
    if amount <= 0 {
        under
    } else {
        let color: u32 = if available >= amount { TEXT } else { 0xe06c75 };
        let icon = resource_icon_px(index, x, y - 11, 22, under, i);
        let marked = if color != TEXT { paint(icon, i, x, y + 11, 22, 2, color) } else { icon };
        text_px(decimal(amount), x + 28, y - 7, 2, color, marked, i)
    }
}

/// The color at buffer index `i` once a tab of the build menu with the label bitmap `l`
/// is drawn in the box `w` × `h` at `(x, y)` over `under`: striped when `active`, lit
/// when `hot`.
pub open spec fn category_button_px(l: Seq<u8>, x: int, y: int, w: int, h: int, active: bool, hot: bool, under: u32, i: int) -> u32 {
    let background = if active { 0x3a4654u32 } else if hot { 0x303946u32 } else { 0x252d3au32 };
    let tab = if active {
        paint(paint(under, i, x, y, w, h, background), i, x, y, 4, h, WARNING)
    } else {
        paint(under, i, x, y, w, h, background)
    };
    label_over(l, x + w / 2, y + h / 2, TEXT, tab, i)
}

/// The color at buffer index `i` once a card of kind `kind` costing `food_cost` is offered
/// in the box `w` × `h` at `(x, y)` over `under`, with the label bitmaps `l`: its name,
/// its kind and its food cost, lit when `hot`.
pub open spec fn prep_card_px(l: Seq<Seq<u8>>, kind: CardKind, food_cost: int, x: int, y: int, w: int, h: int, hot: bool, under: u32, i: int) -> u32 {
    let outer = if hot { 0xf0d060u32 } else { 0xd7c59au32 };
    let inner = if hot { 0xe6c66du32 } else { 0xc9b98eu32 };
    let face = paint(paint(under, i, x, y, w, h, outer), i, x + 4, y + 4, w - 8, h - 8, inner);
    let named = label_over(l[card_name_label(kind) as int], x + w / 2, y + 24, BLACK, face, i);
    let kinded = label_over(l[card_kind_label(kind) as int], x + w / 2, y + 52, BLACK, named, i);
    text_px(decimal(food_cost), x + 68, y + 73, 2, BLACK, label_over(l[FOOD_LABEL as int], x + 38, y + 80, BLACK, kinded, i), i)
}

/// Half the width of row `r` (0 to 10) of an arrow: it grows to 5 in the middle row.
pub open spec fn arrow_span(r: int) -> int {
    if r <= 5 { r } else { 10 - r }
}

/// Buffer index `i` is covered by the first `m` two-pixel strokes of row `r` of an arrow
/// centered at `(mx, my)`, pointing right or left.
pub open spec fn arrow_part(mx: int, my: int, right: bool, r: int, m: int, i: int) -> bool {
    &&& m >= 1
    &&& row_of(i) == my + r - 5
    &&& if right {
        mx <= col_of(i) < mx + (m - 1) / 2 + 2
    } else {
        mx - (m - 1) / 2 <= col_of(i) < mx + 2
    }
}

/// Buffer index `i` is covered by the arrow of eleven rows centered at `(mx, my)`.
pub open spec fn arrow_covers(mx: int, my: int, right: bool, i: int) -> bool {
    let r = row_of(i) - my + 5;
    0 <= r <= 10 && arrow_part(mx, my, right, r, arrow_span(r) + 1, i)
}

/// The color at buffer index `i` once an arrow button is drawn in the box `w` × `h` at
/// `(x, y)` over `under`: rim and face, lit when `hot`, and a black arrow in the middle.
pub open spec fn arrow_button_px(x: int, y: int, w: int, h: int, right: bool, hot: bool, under: u32, i: int) -> u32 {
    let edge = if hot { HOVER_EDGE } else { BUTTON_EDGE };
    let face = if hot { HOVER_FACE } else { BUTTON_FACE };
    if arrow_covers(x + w / 2, y + h / 2, right, i) {
        BLACK
    } else {
        paint(paint(under, i, x, y, w, h, edge), i, x + 3, y + 3, w - 6, h - 6, face)
    }
}

/// The color at buffer index `i` once a main-menu button with the label bitmap `l` is
/// drawn in the box `w` × `h` at `(x, y)` over `under`: lit and underlined when `hot`.
pub open spec fn menu_button_px(l: Seq<u8>, x: int, y: int, w: int, h: int, hot: bool, under: u32, i: int) -> u32 {
    let edge = if hot { HOVER_EDGE } else { BUTTON_EDGE };
    let face = if hot { HOVER_FACE } else { BUTTON_FACE };
    let ink = if hot { 0x11151cu32 } else { BLACK };
    let body = paint(paint(under, i, x, y, w, h, edge), i, x + 4, y + 4, w - 8, h - 8, face);
    label_over(l, x + w / 2, y + h / 2, ink, if hot { paint(body, i, x + 8, y + h - 9, w - 16, 3, 0x6f5930) } else { body }, i)
}

/// The color at buffer index `i` once the message bar showing `message` is drawn over
/// `under`.
pub open spec fn footer_px(message: Seq<char>, under: u32, i: int) -> u32 {
    text_px(message, 12, 703, 1, MUTED_TEXT, paint(under, i, 0, 696, 1280, 24, 0x11151c), i)
}

/// The color at buffer index `i` once the warning icon is drawn at `(x, y)` over `under`.
pub open spec fn warning_icon_px(x: int, y: int, under: u32, i: int) -> u32 {
    paint(paint(paint(under, i, x, y, 16, 16, 0xb94b4b), i, x + 6, y + 3, 4, 7, TEXT), i, x + 6, y + 12, 4, 2, TEXT)
}

/// The color at buffer index `i` once a hand card of kind `kind` is drawn at `(x, y)`
/// over `under`, with the label bitmaps `l`: its name and kind.
pub open spec fn expedition_card_px(l: Seq<Seq<u8>>, kind: CardKind, x: int, y: int, under: u32, i: int) -> u32 {
    let face = paint(paint(under, i, x, y, 92, 84, CARD), i, x + 4, y + 4, 84, 76, 0xc9b98e);
    label_over(l[card_kind_label(kind) as int], x + 46, y + 52, BLACK, label_over(l[card_name_label(kind) as int], x + 46, y + 24, BLACK, face, i), i)
}

/// The pointer at `(mx, my)` is over the box `w` × `h` at `(x, y)`.
pub open spec fn hovers(mx: int, my: int, x: int, y: int, w: int, h: int) -> bool {
    x <= mx < x + w && y <= my < y + h
}

/// Coordinates that leave room for a widget and its label without leaving `usize`.
pub open spec fn fits_on(x: int, y: int, w: int, h: int) -> bool {
    x + w + 65536 <= usize::MAX && y + h + 65536 <= usize::MAX
}

fn hovered(mx: usize, my: usize, x: usize, y: usize, w: usize, h: usize) -> (b: bool)
    requires
        x + w <= usize::MAX,
        y + h <= usize::MAX,
    ensures
        b == hovers(mx as int, my as int, x as int, y as int, w as int, h as int),
{
    mx >= x && mx < x + w && my >= y && my < y + h
}

impl Renderer {
    /// The message bar along the bottom of the window.
    pub fn draw_footer(&mut self, message: &str)
        requires
            old(self).wf(),
        ensures
            final(self).wf(),
            final(self).label_data() == old(self).label_data(),
            forall|i: int| 0 <= i < PIXELS ==> #[trigger] final(self).frame()[i] == footer_px(message@, old(self).frame()[i], i),
    {
        self.rect(0, HEIGHT - 24, WIDTH, 24, 0x11151c);
        self.draw_text(message, 12, HEIGHT - 17, 1, MUTED_TEXT);
    }

    /// A large button of the main menu, lit and underlined under the pointer.
    pub fn menu_button(&mut self, x: usize, y: usize, width: usize, height: usize, label: usize, mouse_x: usize, mouse_y: usize)
        requires
            old(self).wf(),
            label < LABEL_COUNT,
            width >= 16,
            height >= 9,
            fits_on(x as int, y as int, width as int, height as int),
        ensures
            final(self).wf(),
            final(self).label_data() == old(self).label_data(),
            forall|i: int|
                0 <= i < PIXELS ==> #[trigger] final(self).frame()[i] == menu_button_px(
                    old(self).label_data()[label as int],
                    x as int,
                    y as int,
                    width as int,
                    height as int,
                    hovers(mouse_x as int, mouse_y as int, x as int, y as int, width as int, height as int),
                    old(self).frame()[i],
                    i,
                ),
    {
        let hot = hovered(mouse_x, mouse_y, x, y, width, height);
        let edge = if hot { HOVER_EDGE } else { BUTTON_EDGE };
        let face = if hot { HOVER_FACE } else { BUTTON_FACE };
        let ink = if hot { 0x11151c } else { BLACK };
        self.rect(x, y, width, height, edge);
        self.rect(x + 4, y + 4, width - 8, height - 8, face);
        if hot {
            self.rect(x + 8, y + height - 9, width - 16, 3, 0x6f5930);
        }
        self.draw_label(label, x + width / 2, y + height / 2, ink);
    }

    /// A button of the side panel and the dialogs, lit under the pointer.
    pub fn side_button(&mut self, x: usize, y: usize, width: usize, height: usize, label: usize, mouse_x: usize, mouse_y: usize)
        requires
            old(self).wf(),
            label < LABEL_COUNT,
            width >= 6,
            height >= 6,
            fits_on(x as int, y as int, width as int, height as int),
        ensures
            final(self).wf(),
            final(self).label_data() == old(self).label_data(),
            forall|i: int|
                0 <= i < PIXELS ==> #[trigger] final(self).frame()[i] == side_button_px(
                    old(self).label_data()[label as int],
                    x as int,
                    y as int,
                    width as int,
                    height as int,
                    hovers(mouse_x as int, mouse_y as int, x as int, y as int, width as int, height as int),
                    old(self).frame()[i],
                    i,
                ),
    {
        let hot = hovered(mouse_x, mouse_y, x, y, width, height);
        let edge = if hot { HOVER_EDGE } else { BUTTON_EDGE };
        let face = if hot { HOVER_FACE } else { BUTTON_FACE };
        self.rect(x, y, width, height, edge);
        self.rect(x + 3, y + 3, width - 6, height - 6, face);
        self.draw_label(label, x + width / 2, y + height / 2, BLACK);
    }

    /// A greyed-out button: it does not light under the pointer.
    pub fn disabled_side_button(&mut self, x: usize, y: usize, width: usize, height: usize, label: usize)
        requires
            old(self).wf(),
            label < LABEL_COUNT,
            width >= 6,
            height >= 6,
            fits_on(x as int, y as int, width as int, height as int),
        ensures
            final(self).wf(),
            final(self).label_data() == old(self).label_data(),
            forall|i: int|
                0 <= i < PIXELS ==> #[trigger] final(self).frame()[i] == disabled_button_px(
                    old(self).label_data()[label as int],
                    x as int,
                    y as int,
                    width as int,
                    height as int,
                    old(self).frame()[i],
                    i,
                ),
    {
        self.rect(x, y, width, height, 0x59606a);
        self.rect(x + 3, y + 3, width - 6, height - 6, 0x3f4650);
        self.draw_label(label, x + width / 2, y + height / 2, MUTED_TEXT);
    }

    /// A small button with an arrow pointing left or right; only the button's box is drawn
    /// on, its rim in the lit or plain edge color.
    pub fn arrow_button(&mut self, x: usize, y: usize, width: usize, height: usize, points_right: bool, mouse_x: usize, mouse_y: usize)
        requires
            old(self).wf(),
            width >= 14,
            height >= 18,
            fits_on(x as int, y as int, width as int, height as int),
        ensures
            final(self).wf(),
            final(self).label_data() == old(self).label_data(),
            forall|i: int|
                0 <= i < PIXELS && !in_box(i, x as int, y as int, x + width, y + height) ==> #[trigger] final(self).frame()[i]
                    == old(self).frame()[i],
            forall|i: int|
                0 <= i < PIXELS && in_box(i, x as int, y as int, x + width, y + height) && !in_box(
                    i,
                    x + 3,
                    y + 3,
                    x + width - 3,
                    y + height - 3,
                ) ==> #[trigger] final(self).frame()[i] == if hovers(
                    mouse_x as int,
                    mouse_y as int,
                    x as int,
                    y as int,
                    width as int,
                    height as int,
                ) {
                    HOVER_EDGE
                } else {
                    BUTTON_EDGE
                },
            forall|i: int|
                0 <= i < PIXELS ==> #[trigger] final(self).frame()[i] == arrow_button_px(
                    x as int,
                    y as int,
                    width as int,
                    height as int,
                    points_right,
                    hovers(mouse_x as int, mouse_y as int, x as int, y as int, width as int, height as int),
                    old(self).frame()[i],
                    i,
                ),
    {
        let hot = hovered(mouse_x, mouse_y, x, y, width, height);
        let edge = if hot { HOVER_EDGE } else { BUTTON_EDGE };
        let face = if hot { HOVER_FACE } else { BUTTON_FACE };
        self.rect(x, y, width, height, edge);
        self.rect(x + 3, y + 3, width - 6, height - 6, face);
        let ghost framed = self.frame();
        let mid_x = x + width / 2;
        let mid_y = y + height / 2;
        let mut row: usize = 0;
        while row < 11
            invariant
                row <= 11,
                width >= 14,
                height >= 18,
                mid_x == x + width / 2,
                mid_y == y + height / 2,
                fits_on(x as int, y as int, width as int, height as int),
                self.wf(),
                self.label_data() == old(self).label_data(),
                forall|i: int|
                    0 <= i < PIXELS && !in_box(i, x + 3, y + 3, x + width - 3, y + height - 3) ==> #[trigger] self.frame()[i]
                        == framed[i],
                forall|i: int|
                    0 <= i < PIXELS ==> #[trigger] self.frame()[i] == if ({
                        let r = row_of(i) - mid_y + 5;
                        0 <= r < row && arrow_part(mid_x as int, mid_y as int, points_right, r, arrow_span(r) + 1, i)
                    }) {
                        BLACK
                    } else {
                        framed[i]
                    },
            decreases 11 - row,
        {
            let span = if row <= 5 { row } else { 10 - row };
            let py = mid_y + row - 5;
            let mut offset: usize = 0;
            while offset <= span
                invariant
                    row < 11,
                    span <= 5,
                    offset <= span + 1,
                    py == mid_y + row - 5,
                    width >= 14,
                    height >= 18,
                    mid_x == x + width / 2,
                    mid_y == y + height / 2,
                    fits_on(x as int, y as int, width as int, height as int),
                    self.wf(),
                    self.label_data() == old(self).label_data(),
                    forall|i: int|
                        0 <= i < PIXELS && !in_box(i, x + 3, y + 3, x + width - 3, y + height - 3) ==> #[trigger] self.frame()[i]
                            == framed[i],
                    span == arrow_span(row as int),
                    forall|i: int|
                        0 <= i < PIXELS ==> #[trigger] self.frame()[i] == if ({
                            let r = row_of(i) - mid_y + 5;
                            (0 <= r < row && arrow_part(mid_x as int, mid_y as int, points_right, r, arrow_span(r) + 1, i))
                                || (r == row && arrow_part(mid_x as int, mid_y as int, points_right, r, offset as int, i))
                        }) {
                            BLACK
                        } else {
                            framed[i]
                        },
                decreases span + 1 - offset,
            {
                let px = if points_right { mid_x + offset / 2 } else { mid_x - offset / 2 };
                self.rect(px, py, 2, 1, BLACK);
                offset = offset + 1;
            }
            row = row + 1;
        }
    }

    /// A tab of the build menu: highlighted with a stripe when active, lit under the
    /// pointer otherwise.
    pub fn category_button(
        &mut self,
        x: usize,
        y: usize,
        width: usize,
        height: usize,
        label: usize,
        active: bool,
        mouse_x: usize,
        mouse_y: usize,
    )
        requires
            old(self).wf(),
            label < LABEL_COUNT,
            fits_on(x as int, y as int, width as int, height as int),
        ensures
            final(self).wf(),
            final(self).label_data() == old(self).label_data(),
            forall|i: int|
                0 <= i < PIXELS ==> #[trigger] final(self).frame()[i] == category_button_px(
                    old(self).label_data()[label as int],
                    x as int,
                    y as int,
                    width as int,
                    height as int,
                    active,
                    hovers(mouse_x as int, mouse_y as int, x as int, y as int, width as int, height as int),
                    old(self).frame()[i],
                    i,
                ),
    {
        let hot = hovered(mouse_x, mouse_y, x, y, width, height);
        let background = if active {
            0x3a4654
        } else if hot {
            0x303946
        } else {
            0x252d3a
        };
        self.rect(x, y, width, height, background);
        if active {
            self.rect(x, y, 4, height, WARNING);
        }
        self.draw_label(label, x + width / 2, y + height / 2, TEXT);
    }

    /// A label with a value written after it, as in "HP 24/24".
    pub fn draw_stat_row(&mut self, label: usize, value: &str, x: usize, y: usize)
        requires
            old(self).wf(),
            label < LABEL_COUNT,
            7 <= y,
            x + 100 + 65536 <= usize::MAX,
            y + 65536 <= usize::MAX,
        ensures
            final(self).wf(),
            final(self).label_data() == old(self).label_data(),
            forall|i: int|
                0 <= i < PIXELS ==> #[trigger] final(self).frame()[i] == stat_row_px(
                    old(self).label_data()[label as int],
                    value@,
                    x as int,
                    y as int,
                    old(self).frame()[i],
                    i,
                ),
    {
        self.draw_label(label, x + 22, y, TEXT);
        self.draw_text(value, x + 72, y - 7, 2, TEXT);
    }

    /// A red warning square with an exclamation mark.
    pub fn warning_icon(&mut self, x: usize, y: usize)
        requires
            old(self).wf(),
            x + 16 <= usize::MAX,
            y + 16 <= usize::MAX,
        ensures
            final(self).wf(),
            final(self).label_data() == old(self).label_data(),
            forall|i: int|
                0 <= i < PIXELS ==> #[trigger] final(self).frame()[i] == warning_icon_px(x as int, y as int, old(self).frame()[i], i),
    {
        self.rect(x, y, 16, 16, 0xb94b4b);
        self.rect(x + 6, y + 3, 4, 7, TEXT);
        self.rect(x + 6, y + 12, 4, 2, TEXT);
    }

    /// The icon of a material (0 wood, 1 stone, 2 food) in a box of side `size` at
    /// `(x, y)`; nothing is drawn outside that box and four pixels below it. A part whose
    /// size would be negative is left out.
    pub fn draw_resource_icon(&mut self, index: usize, x: usize, y: usize, size: usize)
        requires
            old(self).wf(),
            size >= 16,
            x + size + 4 <= usize::MAX,
            y + size + 4 <= usize::MAX,
        ensures
            final(self).wf(),
            final(self).label_data() == old(self).label_data(),
            forall|i: int|
                0 <= i < PIXELS ==> #[trigger] final(self).frame()[i] == resource_icon_px(
                    index as int,
                    x as int,
                    y as int,
                    size as int,
                    old(self).frame()[i],
                    i,
                ),
            forall|i: int|
                0 <= i < PIXELS && !in_box(i, x as int, y as int, x + size, y + size + 4) ==> #[trigger] final(self).frame()[i]
                    == old(self).frame()[i],
            index >= 3 ==> final(self).frame() == old(self).frame(),
    {
        if index == 0 {
            self.rect(x + 8, y + 6, size - 16, size - 12, 0x8b5a35);
            self.rect(x + 5, y + 11, size - 10, size - 14, 0x6b4329);
            self.rect(x + 12, y + 4, 4, size - 8, 0xb57945);
        } else if index == 1 {
            self.rect(x + 6, y + 14, size - 12, size - 10, 0x5f6872);
            if size >= 18 {
                self.rect(x + 12, y + 7, size - 18, size - 14, 0x8a929b);
            }
            if size >= 24 {
                self.rect(x + 20, y + 12, size - 24, size - 18, 0xb0b7bf);
            }
        } else if index == 2 {
            if size >= 18 {
                self.rect(x + 9, y + 12, size - 18, size - 12, 0xc44b6a);
            }
            if size >= 26 {
                self.rect(x + 13, y + 8, size - 26, size - 24, 0x4fa65e);
            }
            if size >= 28 {
                self.rect(x + 20, y + 6, size - 28, size - 26, 0x3f8f4f);
            }
        }
    }

    /// One material of a building's cost: its icon and amount, in red and underlined when
    /// the stock does not cover it; `x` moves past it. A zero or negative amount draws
    /// nothing.
    pub fn draw_cost_part(&mut self, resource_index: usize, amount: i32, available: i32, x: &mut usize, y: usize)
        requires
            old(self).wf(),
            11 <= y <= 10_000,
            *old(x) <= 10_000,
        ensures
            final(self).wf(),
            final(self).label_data() == old(self).label_data(),
            *final(x) == if amount > 0 { *old(x) + 56 } else { *old(x) as int },
            amount <= 0 ==> final(self).frame() == old(self).frame(),
            forall|i: int|
                0 <= i < PIXELS ==> #[trigger] final(self).frame()[i] == cost_part_px(
                    resource_index as int,
                    amount as int,
                    available as int,
                    *old(x) as int,
                    y as int,
                    old(self).frame()[i],
                    i,
                ),
    {
        if amount <= 0 {
            return;
        }
        let color = if available >= amount { TEXT } else { 0xe06c75 };
        self.draw_resource_icon(resource_index, *x, y - 11, 22);
        if color != TEXT {
            self.rect(*x, y + 11, 22, 2, color);
        }
        *x = *x + 28;
        let mut value = String::new();
        append_int(&mut value, amount as i64);
        self.draw_text(value.as_str(), *x, y - 7, 2, color);
        *x = *x + 28;
    }

    /// A strip near the bottom of the base view with a material's description.
    pub fn draw_resource_description(&mut self, label: usize)
        requires
            old(self).wf(),
            label < LABEL_COUNT,
        ensures
            final(self).wf(),
            final(self).label_data() == old(self).label_data(),
            forall|i: int|
                0 <= i < PIXELS ==> #[trigger] final(self).frame()[i] == label_over(
                    old(self).label_data()[label as int],
                    500,
                    640,
                    MUTED_TEXT,
                    paint(old(self).frame()[i], i, 40, 624, 920, 32, 0x1c2330),
                    i,
                ),
    {
        let width = BASE_VIEWPORT_WIDTH - 80;
        self.rect(40, BASE_VIEWPORT_HEIGHT - 72, width, 32, 0x1c2330);
        self.draw_label(label, BASE_VIEWPORT_WIDTH / 2, BASE_VIEWPORT_HEIGHT - 56, MUTED_TEXT);
    }

    /// A label in a small box beside the pointer, kept left of `right` and above `bottom`.
    fn tooltip(&mut self, mouse_x: usize, mouse_y: usize, label: usize, right: usize, bottom: usize)
        requires
            old(self).wf(),
            label < LABEL_COUNT,
            right <= WIDTH,
            bottom <= HEIGHT,
        ensures
            final(self).wf(),
            final(self).label_data() == old(self).label_data(),
            forall|i: int|
                0 <= i < PIXELS ==> #[trigger] final(self).frame()[i] == tooltip_over(
                    old(self).label_data()[label as int],
                    mouse_x as int,
                    mouse_y as int,
                    right as int,
                    bottom as int,
                    old(self).frame()[i],
                    i,
                ),
    {
        let width = self.label_width_of(label) + 24;
        let x = tooltip_place(mouse_x, width + 8, right);
        let y = tooltip_place(mouse_y, 34, bottom);
        self.rect(x, y, width, 28, 0x1c2330);
        self.draw_label(label, x + width / 2, y + 14, TEXT);
    }

    /// The description of a map tile beside the pointer.
    pub fn resource_tooltip(&mut self, mouse_x: usize, mouse_y: usize, label: usize)
        requires
            old(self).wf(),
            label < LABEL_COUNT,
        ensures
            final(self).wf(),
            final(self).label_data() == old(self).label_data(),
            forall|i: int|
                0 <= i < PIXELS ==> #[trigger] final(self).frame()[i] == tooltip_over(
                    old(self).label_data()[label as int],
                    mouse_x as int,
                    mouse_y as int,
                    WIDTH as int,
                    EXPEDITION_VIEWPORT_HEIGHT as int,
                    old(self).frame()[i],
                    i,
                ),
    {
        self.tooltip(mouse_x, mouse_y, label, WIDTH, EXPEDITION_VIEWPORT_HEIGHT);
    }

    /// What a base building is for, beside the pointer.
    pub fn base_building_tooltip(&mut self, mouse_x: usize, mouse_y: usize, label: usize)
        requires
            old(self).wf(),
            label < LABEL_COUNT,
        ensures
            final(self).wf(),
            final(self).label_data() == old(self).label_data(),
            forall|i: int|
                0 <= i < PIXELS ==> #[trigger] final(self).frame()[i] == tooltip_over(
                    old(self).label_data()[label as int],
                    mouse_x as int,
                    mouse_y as int,
                    BASE_VIEWPORT_WIDTH as int,
                    BASE_VIEWPORT_HEIGHT as int,
                    old(self).frame()[i],
                    i,
                ),
    {
        self.tooltip(mouse_x, mouse_y, label, BASE_VIEWPORT_WIDTH, BASE_VIEWPORT_HEIGHT);
    }

    /// A card offered in the expedition preparation: name, kind and food cost, lit under
    /// the pointer.
    pub fn prep_card(&mut self, x: usize, y: usize, width: usize, height: usize, card: &Card, mouse_x: usize, mouse_y: usize)
        requires
            old(self).wf(),
            width >= 8,
            height >= 80,
            x + width + 100 + 65536 <= usize::MAX,
            y + height + 65536 <= usize::MAX,
        ensures
            final(self).wf(),
            final(self).label_data() == old(self).label_data(),
            forall|i: int|
                0 <= i < PIXELS ==> #[trigger] final(self).frame()[i] == prep_card_px(
                    old(self).label_data(),
                    card.kind,
                    card.food_cost as int,
                    x as int,
                    y as int,
                    width as int,
                    height as int,
                    hovers(mouse_x as int, mouse_y as int, x as int, y as int, width as int, height as int),
                    old(self).frame()[i],
                    i,
                ),
    {
        let hot = hovered(mouse_x, mouse_y, x, y, width, height);
        let outer = if hot { 0xf0d060 } else { 0xd7c59a };
        let inner = if hot { 0xe6c66d } else { 0xc9b98e };
        self.rect(x, y, width, height, outer);
        self.rect(x + 4, y + 4, width - 8, height - 8, inner);
        self.draw_label(card_name_label(card.kind), x + width / 2, y + 24, BLACK);
        self.draw_label(card_kind_label(card.kind), x + width / 2, y + 52, BLACK);
        self.draw_label(FOOD_LABEL, x + 38, y + 80, BLACK);
        let mut cost = String::new();
        append_int(&mut cost, card.food_cost as i64);
        self.draw_text(cost.as_str(), x + 68, y + 73, 2, BLACK);
    }

    /// A card of the expedition hand: name and kind.
    pub fn expedition_card(&mut self, x: usize, y: usize, card: &Card)
        requires
            old(self).wf(),
            x + 92 + 65536 <= usize::MAX,
            y + 84 + 65536 <= usize::MAX,
        ensures
            final(self).wf(),
            final(self).label_data() == old(self).label_data(),
            forall|i: int|
                0 <= i < PIXELS ==> #[trigger] final(self).frame()[i] == expedition_card_px(
                    old(self).label_data(),
                    card.kind,
                    x as int,
                    y as int,
                    old(self).frame()[i],
                    i,
                ),
    {
        self.rect(x, y, 92, 84, CARD);
        self.rect(x + 4, y + 4, 84, 76, 0xc9b98e);
        self.draw_label(card_name_label(card.kind), x + 46, y + 24, BLACK);
        self.draw_label(card_kind_label(card.kind), x + 46, y + 52, BLACK);
    }

    /// Why the expedition cannot depart, in a box at `(x, y)`.
    pub fn depart_block_tooltip(&mut self, x: usize, y: usize, reason: DepartBlockReason)
        requires
            old(self).wf(),
            x + 220 + 65536 <= usize::MAX,
            y + 30 + 65536 <= usize::MAX,
        ensures
            final(self).wf(),
            final(self).label_data() == old(self).label_data(),
            forall|i: int|
                0 <= i < PIXELS ==> #[trigger] final(self).frame()[i] == label_over(
                    old(self).label_data()[depart_block_label(reason) as int],
                    x + 110,
                    y + 15,
                    WARNING,
                    paint(old(self).frame()[i], i, x as int, y as int, 220, 30, 0x1c2330),
                    i,
                ),
    {
        let label = depart_block_label(reason);
        self.rect(x, y, 220, 30, 0x1c2330);
        self.draw_label(label, x + 110, y + 15, WARNING);
    }
}


/// The color at buffer index `i` once a tooltip with the label bitmap `b` is drawn beside
/// the pointer at `(mx, my)`, kept left of `right` and above `bottom`, over `under`.
pub open spec fn tooltip_over(b: Seq<u8>, mx: int, my: int, right: int, bottom: int, under: u32, i: int) -> u32 {
    let width = crate::labels::bitmap_width(b) + 24;
    let x = tooltip_x(mx, width + 8, right);
    let y = tooltip_x(my, 34, bottom);
    label_over(b, x + width / 2, y + 14, TEXT, paint(under, i, x, y, width, 28, 0x1c2330), i)
}

/// Where a tooltip goes along one axis: 14 pixels past the pointer, but no closer than
/// `reserve` to the far edge `edge`.
pub open spec fn tooltip_x(pointer: int, reserve: int, edge: int) -> int {
    let near = if pointer + 14 <= usize::MAX { pointer + 14 } else { usize::MAX as int };
    let room = if edge >= reserve { edge - reserve } else { 0 };
    if near <= room { near } else { room }
}

fn tooltip_place(pointer: usize, reserve: usize, edge: usize) -> (p: usize)
    requires
        edge <= WIDTH,
    ensures
        p == tooltip_x(pointer as int, reserve as int, edge as int),
        p <= WIDTH,
{
    let near = pointer.saturating_add(14);
    let room = edge.saturating_sub(reserve);
    if near <= room { near } else { room }
}

} // verus!
