use vstd::prelude::*;

use crate::frame::{col_of, in_box, lemma_pixel_bounds, row_of, PIXELS, WIDTH};
use crate::render::Renderer;

verus! {

broadcast use lemma_pixel_bounds;

/// The rows of the 5 × 7 bitmap of a character, top row first, the leftmost column in
/// bit 4. Letters are drawn in upper case; characters without a bitmap are drawn as a
/// crossed box.
pub open spec fn glyph_rows(ch: char) -> Seq<u8> {
    match ch {
        'A' | 'a' => seq![0x0e, 0x11, 0x11, 0x1f, 0x11, 0x11, 0x11],
        'B' | 'b' => seq![0x1e, 0x11, 0x11, 0x1e, 0x11, 0x11, 0x1e],
        'C' | 'c' => seq![0x0e, 0x11, 0x10, 0x10, 0x10, 0x11, 0x0e],
        'D' | 'd' => seq![0x1e, 0x11, 0x11, 0x11, 0x11, 0x11, 0x1e],
        'E' | 'e' => seq![0x1f, 0x10, 0x10, 0x1e, 0x10, 0x10, 0x1f],
        'F' | 'f' => seq![0x1f, 0x10, 0x10, 0x1e, 0x10, 0x10, 0x10],
        'G' | 'g' => seq![0x0e, 0x11, 0x10, 0x17, 0x11, 0x11, 0x0f],
        'H' | 'h' => seq![0x11, 0x11, 0x11, 0x1f, 0x11, 0x11, 0x11],
        'I' | 'i' => seq![0x0e, 0x04, 0x04, 0x04, 0x04, 0x04, 0x0e],
        'J' | 'j' => seq![0x01, 0x01, 0x01, 0x01, 0x11, 0x11, 0x0e],
        'K' | 'k' => seq![0x11, 0x12, 0x14, 0x18, 0x14, 0x12, 0x11],
        'L' | 'l' => seq![0x10, 0x10, 0x10, 0x10, 0x10, 0x10, 0x1f],
        'M' | 'm' => seq![0x11, 0x1b, 0x15, 0x15, 0x11, 0x11, 0x11],
        'N' | 'n' => seq![0x11, 0x19, 0x15, 0x13, 0x11, 0x11, 0x11],
        'O' | 'o' => seq![0x0e, 0x11, 0x11, 0x11, 0x11, 0x11, 0x0e],
        'P' | 'p' => seq![0x1e, 0x11, 0x11, 0x1e, 0x10, 0x10, 0x10],
        'Q' | 'q' => seq![0x0e, 0x11, 0x11, 0x11, 0x15, 0x12, 0x0d],
        'R' | 'r' => seq![0x1e, 0x11, 0x11, 0x1e, 0x14, 0x12, 0x11],
        'S' | 's' => seq![0x0f, 0x10, 0x10, 0x0e, 0x01, 0x01, 0x1e],
        'T' | 't' => seq![0x1f, 0x04, 0x04, 0x04, 0x04, 0x04, 0x04],
        'U' | 'u' => seq![0x11, 0x11, 0x11, 0x11, 0x11, 0x11, 0x0e],
        'V' | 'v' => seq![0x11, 0x11, 0x11, 0x11, 0x11, 0x0a, 0x04],
        'W' | 'w' => seq![0x11, 0x11, 0x11, 0x15, 0x15, 0x1b, 0x11],
        'X' | 'x' => seq![0x11, 0x11, 0x0a, 0x04, 0x0a, 0x11, 0x11],
        'Y' | 'y' => seq![0x11, 0x11, 0x0a, 0x04, 0x04, 0x04, 0x04],
        'Z' | 'z' => seq![0x1f, 0x01, 0x02, 0x04, 0x08, 0x10, 0x1f],
        '0' => seq![0x0e, 0x11, 0x13, 0x15, 0x19, 0x11, 0x0e],
        '1' => seq![0x04, 0x0c, 0x04, 0x04, 0x04, 0x04, 0x0e],
        '2' => seq![0x0e, 0x11, 0x01, 0x02, 0x04, 0x08, 0x1f],
        '3' => seq![0x1e, 0x01, 0x01, 0x0e, 0x01, 0x01, 0x1e],
        '4' => seq![0x02, 0x06, 0x0a, 0x12, 0x1f, 0x02, 0x02],
        '5' => seq![0x1f, 0x10, 0x10, 0x1e, 0x01, 0x01, 0x1e],
        '6' => seq![0x0e, 0x10, 0x10, 0x1e, 0x11, 0x11, 0x0e],
        '7' => seq![0x1f, 0x01, 0x02, 0x04, 0x08, 0x08, 0x08],
        '8' => seq![0x0e, 0x11, 0x11, 0x0e, 0x11, 0x11, 0x0e],
        '9' => seq![0x0e, 0x11, 0x11, 0x0f, 0x01, 0x01, 0x0e],
        ':' => seq![0x00, 0x04, 0x04, 0x00, 0x04, 0x04, 0x00],
        '.' => seq![0x00, 0x00, 0x00, 0x00, 0x00, 0x04, 0x04],
        ',' => seq![0x00, 0x00, 0x00, 0x00, 0x00, 0x04, 0x08],
        '-' => seq![0x00, 0x00, 0x00, 0x1f, 0x00, 0x00, 0x00],
        '/' => seq![0x01, 0x01, 0x02, 0x04, 0x08, 0x10, 0x10],
        '+' => seq![0x00, 0x04, 0x04, 0x1f, 0x04, 0x04, 0x00],
        '[' => seq![0x0e, 0x08, 0x08, 0x08, 0x08, 0x08, 0x0e],
        ']' => seq![0x0e, 0x02, 0x02, 0x02, 0x02, 0x02, 0x0e],
        '!' => seq![0x04, 0x04, 0x04, 0x04, 0x04, 0x00, 0x04],
        '?' => seq![0x0e, 0x11, 0x01, 0x02, 0x04, 0x00, 0x04],
        ' ' => seq![0x00, 0x00, 0x00, 0x00, 0x00, 0x00, 0x00],
        _ => seq![0x1f, 0x11, 0x05, 0x02, 0x05, 0x11, 0x1f],
    }
}

/// Whether the bitmap of `ch` has the dot at `row` (0 to 6), `col` (0 to 4).
pub open spec fn glyph_on(ch: char, row: int, col: int) -> bool {
    (glyph_rows(ch)[row] >> ((4 - col) as u8)) & 1u8 == 1u8
}

/// The bitmap of a character (see `glyph_rows`).
pub fn glyph(ch: char) -> (rows: [u8; 7])
    ensures
        rows@ == glyph_rows(ch),
{
    let rows: [u8; 7] = match ch {
        'A' | 'a' => [0x0e, 0x11, 0x11, 0x1f, 0x11, 0x11, 0x11],
        'B' | 'b' => [0x1e, 0x11, 0x11, 0x1e, 0x11, 0x11, 0x1e],
        'C' | 'c' => [0x0e, 0x11, 0x10, 0x10, 0x10, 0x11, 0x0e],
        'D' | 'd' => [0x1e, 0x11, 0x11, 0x11, 0x11, 0x11, 0x1e],
        'E' | 'e' => [0x1f, 0x10, 0x10, 0x1e, 0x10, 0x10, 0x1f],
        'F' | 'f' => [0x1f, 0x10, 0x10, 0x1e, 0x10, 0x10, 0x10],
        'G' | 'g' => [0x0e, 0x11, 0x10, 0x17, 0x11, 0x11, 0x0f],
        'H' | 'h' => [0x11, 0x11, 0x11, 0x1f, 0x11, 0x11, 0x11],
        'I' | 'i' => [0x0e, 0x04, 0x04, 0x04, 0x04, 0x04, 0x0e],
        'J' | 'j' => [0x01, 0x01, 0x01, 0x01, 0x11, 0x11, 0x0e],
        'K' | 'k' => [0x11, 0x12, 0x14, 0x18, 0x14, 0x12, 0x11],
        'L' | 'l' => [0x10, 0x10, 0x10, 0x10, 0x10, 0x10, 0x1f],
        'M' | 'm' => [0x11, 0x1b, 0x15, 0x15, 0x11, 0x11, 0x11],
        'N' | 'n' => [0x11, 0x19, 0x15, 0x13, 0x11, 0x11, 0x11],
        'O' | 'o' => [0x0e, 0x11, 0x11, 0x11, 0x11, 0x11, 0x0e],
        'P' | 'p' => [0x1e, 0x11, 0x11, 0x1e, 0x10, 0x10, 0x10],
        'Q' | 'q' => [0x0e, 0x11, 0x11, 0x11, 0x15, 0x12, 0x0d],
        'R' | 'r' => [0x1e, 0x11, 0x11, 0x1e, 0x14, 0x12, 0x11],
        'S' | 's' => [0x0f, 0x10, 0x10, 0x0e, 0x01, 0x01, 0x1e],
        'T' | 't' => [0x1f, 0x04, 0x04, 0x04, 0x04, 0x04, 0x04],
        'U' | 'u' => [0x11, 0x11, 0x11, 0x11, 0x11, 0x11, 0x0e],
        'V' | 'v' => [0x11, 0x11, 0x11, 0x11, 0x11, 0x0a, 0x04],
        'W' | 'w' => [0x11, 0x11, 0x11, 0x15, 0x15, 0x1b, 0x11],
        'X' | 'x' => [0x11, 0x11, 0x0a, 0x04, 0x0a, 0x11, 0x11],
        'Y' | 'y' => [0x11, 0x11, 0x0a, 0x04, 0x04, 0x04, 0x04],
        'Z' | 'z' => [0x1f, 0x01, 0x02, 0x04, 0x08, 0x10, 0x1f],
        '0' => [0x0e, 0x11, 0x13, 0x15, 0x19, 0x11, 0x0e],
        '1' => [0x04, 0x0c, 0x04, 0x04, 0x04, 0x04, 0x0e],
        '2' => [0x0e, 0x11, 0x01, 0x02, 0x04, 0x08, 0x1f],
        '3' => [0x1e, 0x01, 0x01, 0x0e, 0x01, 0x01, 0x1e],
        '4' => [0x02, 0x06, 0x0a, 0x12, 0x1f, 0x02, 0x02],
        '5' => [0x1f, 0x10, 0x10, 0x1e, 0x01, 0x01, 0x1e],
        '6' => [0x0e, 0x10, 0x10, 0x1e, 0x11, 0x11, 0x0e],
        '7' => [0x1f, 0x01, 0x02, 0x04, 0x08, 0x08, 0x08],
        '8' => [0x0e, 0x11, 0x11, 0x0e, 0x11, 0x11, 0x0e],
        '9' => [0x0e, 0x11, 0x11, 0x0f, 0x01, 0x01, 0x0e],
        ':' => [0x00, 0x04, 0x04, 0x00, 0x04, 0x04, 0x00],
        '.' => [0x00, 0x00, 0x00, 0x00, 0x00, 0x04, 0x04],
        ',' => [0x00, 0x00, 0x00, 0x00, 0x00, 0x04, 0x08],
        '-' => [0x00, 0x00, 0x00, 0x1f, 0x00, 0x00, 0x00],
        '/' => [0x01, 0x01, 0x02, 0x04, 0x08, 0x10, 0x10],
        '+' => [0x00, 0x04, 0x04, 0x1f, 0x04, 0x04, 0x00],
        '[' => [0x0e, 0x08, 0x08, 0x08, 0x08, 0x08, 0x0e],
        ']' => [0x0e, 0x02, 0x02, 0x02, 0x02, 0x02, 0x0e],
        '!' => [0x04, 0x04, 0x04, 0x04, 0x04, 0x00, 0x04],
        '?' => [0x0e, 0x11, 0x01, 0x02, 0x04, 0x00, 0x04],
        ' ' => [0x00, 0x00, 0x00, 0x00, 0x00, 0x00, 0x00],
        _ => [0x1f, 0x11, 0x05, 0x02, 0x05, 0x11, 0x1f],
    };
    assert(rows@ =~= glyph_rows(ch));
    rows
}

/// The pixel at buffer index `i` is a dot of character `ch` drawn with its top left
/// corner at `(x, y)`, each dot a `scale` × `scale` square.
pub open spec fn char_covers(ch: char, x: int, y: int, scale: int, i: int) -> bool {
    let dx = col_of(i) - x;
    let dy = row_of(i) - y;
    &&& scale > 0
    &&& dx >= 0
    &&& dy >= 0
    &&& dx / scale < 5
    &&& dy / scale < 7
    &&& glyph_on(ch, dy / scale, dx / scale)
}

/// `d` lies in the `k`-th run of `s` consecutive numbers from 0 exactly when `d / s` is `k`.
pub proof fn lemma_cell(d: int, s: int, k: int)
    requires
        s > 0,
        k >= 0,
    ensures
        (k * s <= d < k * s + s) <==> (d >= 0 && d / s == k),
{
    if k * s <= d && d < k * s + s {
        assert(d >= 0) by (nonlinear_arith) requires k * s <= d, k >= 0, s > 0;
        vstd::arithmetic::div_mod::lemma_fundamental_div_mod_converse(d, s, k, d - k * s);
    }
    if d >= 0 && d / s == k {
        vstd::arithmetic::div_mod::lemma_fundamental_div_mod(d, s);
        assert(k * s == s * k) by (nonlinear_arith);
    }
}

/// Dots of the bitmap are drawn row by row; this says which dots of a character at
/// `(x, y)` come before row `row`, column `col`.
pub open spec fn dot_done(x: int, y: int, scale: int, i: int, row: int, col: int) -> bool {
    let dx = col_of(i) - x;
    let dy = row_of(i) - y;
    dy / scale < row || (dy / scale == row && dx / scale < col)
}

impl Renderer {
    /// Draws the dots of the bitmap of `ch` in `color`, each a `scale` × `scale` square,
    /// with the top left corner at `(x, y)`; other pixels keep their color.
    pub fn draw_char(&mut self, ch: char, x: usize, y: usize, scale: usize, color: u32)
        requires
            old(self).wf(),
            x + 5 * scale <= usize::MAX,
            y + 7 * scale <= usize::MAX,
        ensures
            final(self).wf(),
            final(self).label_data() == old(self).label_data(),
            forall|i: int|
                0 <= i < PIXELS ==> #[trigger] final(self).frame()[i] == if char_covers(ch, x as int, y as int, scale as int, i) {
                    color
                } else {
                    old(self).frame()[i]
                },
    {
        if scale == 0 {
            return;
        }
        let rows = glyph(ch);
        let ghost before = self.frame();
        let mut row: usize = 0;
        while row < 7
            invariant
                row <= 7,
                scale > 0,
                rows@ == glyph_rows(ch),
                x + 5 * scale <= usize::MAX,
                y + 7 * scale <= usize::MAX,
                self.wf(),
                self.label_data() == old(self).label_data(),
                before == old(self).frame(),
                forall|i: int|
                    0 <= i < PIXELS ==> #[trigger] self.frame()[i] == if char_covers(ch, x as int, y as int, scale as int, i)
                        && dot_done(x as int, y as int, scale as int, i, row as int, 0) {
                        color
                    } else {
                        before[i]
                    },
            decreases 7 - row,
        {
            let bits = rows[row];
            let mut col: usize = 0;
            while col < 5
                invariant
                    row < 7,
                    col <= 5,
                    scale > 0,
                    bits == glyph_rows(ch)[row as int],
                    x + 5 * scale <= usize::MAX,
                    y + 7 * scale <= usize::MAX,
                    self.wf(),
                    self.label_data() == old(self).label_data(),
                    forall|i: int|
                        0 <= i < PIXELS ==> #[trigger] self.frame()[i] == if char_covers(ch, x as int, y as int, scale as int, i)
                            && dot_done(x as int, y as int, scale as int, i, row as int, col as int) {
                            color
                        } else {
                            before[i]
                        },
                decreases 5 - col,
            {
                let shift: u8 = (4 - col) as u8;
                assert(col * scale <= 4 * scale && row * scale <= 6 * scale) by (nonlinear_arith)
                    requires col < 5, row < 7, scale > 0;
                let left = x + col * scale;
                let top = y + row * scale;
                let ghost mid = self.frame();
                if (bits >> shift) & 1u8 == 1u8 {
                    self.rect(left, top, scale, scale, color);
                }
                proof {
                    assert forall|i: int| 0 <= i < PIXELS implies #[trigger] self.frame()[i] == if char_covers(
                        ch,
                        x as int,
                        y as int,
                        scale as int,
                        i,
                    ) && dot_done(x as int, y as int, scale as int, i, row as int, col + 1) {
                        color
                    } else {
                        before[i]
                    } by {
                        lemma_cell(col_of(i) - x, scale as int, col as int);
                        lemma_cell(row_of(i) - y, scale as int, row as int);
                        assert(in_box(i, left as int, top as int, left + scale, top + scale) <==> (col_of(i) - x >= 0
                            && (col_of(i) - x) / (scale as int) == col && row_of(i) - y >= 0 && (row_of(i) - y) / (scale as int)
                            == row)) by (nonlinear_arith)
                            requires
                                left == x + col * scale,
                                top == y + row * scale,
                                (col * scale <= col_of(i) - x < col * scale + scale) <==> (col_of(i) - x >= 0 && (col_of(i) - x) / (scale as int) == col),
                                (row * scale <= row_of(i) - y < row * scale + scale) <==> (row_of(i) - y >= 0 && (row_of(i) - y) / (scale as int) == row),
                        ;
                    }
                }
                col = col + 1;
            }
            row = row + 1;
        }
    }

    /// Writes `text` from `(x, y)` with characters 6 × `scale` pixels apart, as many as
    /// fit before the right edge of the window (at least one). Characters outside ASCII
    /// leave their place empty.
    pub fn draw_text(&mut self, text: &str, x: usize, y: usize, scale: usize, color: u32)
        requires
            old(self).wf(),
            x + 6 * scale + WIDTH <= usize::MAX,
            y + 7 * scale <= usize::MAX,
        ensures
            final(self).wf(),
            final(self).label_data() == old(self).label_data(),
            forall|i: int|
                0 <= i < PIXELS ==> #[trigger] final(self).frame()[i] == if text_covers(
                    text@,
                    text_fit(x as int, scale as int),
                    x as int,
                    y as int,
                    scale as int,
                    i,
                ) {
                    color
                } else {
                    old(self).frame()[i]
                },
    {
        let unit = if scale > 1 { 6 * scale } else { 6 };
        let room = if WIDTH > x { WIDTH - x } else { 0 };
        let max_chars = if room / unit > 1 { room / unit } else { 1 };
        proof {
            assert(max_chars * unit <= room || max_chars == 1) by (nonlinear_arith)
                requires max_chars == (if room / unit > 1 { room / unit } else { 1 }), unit > 0, room >= 0;
            assert(scale * max_chars <= unit * max_chars) by (nonlinear_arith)
                requires unit == (if scale > 1 { 6 * scale } else { 6 }), max_chars >= 0;
        }
        let ghost before = self.frame();
        let ghost count = text_fit(x as int, scale as int);
        let mut k: usize = 0;
        for ch in it: text.chars()
            invariant
                it.seq() == text@,
                k <= max_chars,
                max_chars == count,
                k == (if it.index() < max_chars { it.index() } else { max_chars as int }),
                6 * scale * max_chars <= room || max_chars == 1,
                room == (if WIDTH > x { WIDTH - x } else { 0 }),
                x + 6 * scale + WIDTH <= usize::MAX,
                y + 7 * scale <= usize::MAX,
                self.wf(),
                self.label_data() == old(self).label_data(),
                before == old(self).frame(),
                forall|i: int|
                    0 <= i < PIXELS ==> #[trigger] self.frame()[i] == if text_covers(text@, k as int, x as int, y as int, scale as int, i) {
                        color
                    } else {
                        before[i]
                    },
        {
            if k < max_chars {
                assert(6 * scale * k + 6 * scale <= 6 * scale * max_chars) by (nonlinear_arith)
                    requires k < max_chars;
                let cursor = x + 6 * scale * k;
                let ghost mid = self.frame();
                if (ch as u32) < 128 {
                    self.draw_char(ch, cursor, y, scale, color);
                }
                proof {
                    assert forall|i: int| 0 <= i < PIXELS implies #[trigger] self.frame()[i] == if text_covers(
                        text@,
                        k + 1,
                        x as int,
                        y as int,
                        scale as int,
                        i,
                    ) {
                        color
                    } else {
                        before[i]
                    } by {
                        lemma_text_step(text@, k as int, x as int, y as int, scale as int, i);
                    }
                }
                k = k + 1;
            }
        }
    }
}


/// How many characters `draw_text` writes from column `x`: those that fit before the
/// right edge of the window, at least one.
pub open spec fn text_fit(x: int, scale: int) -> int {
    let unit = if scale > 1 { 6 * scale } else { 6 };
    let room = if WIDTH > x { WIDTH - x } else { 0 };
    if room / unit > 1 { room / unit } else { 1 }
}

/// The pixel at buffer index `i` is a dot of one of the first `count` characters of
/// `text` written from `(x, y)`, characters 6 × `scale` pixels apart; characters outside
/// ASCII have no dots.
pub open spec fn text_covers(text: Seq<char>, count: int, x: int, y: int, scale: int, i: int) -> bool {
    let dx = col_of(i) - x;
    let k = dx / (6 * scale);
    &&& scale > 0
    &&& dx >= 0
    &&& k < count
    &&& k < text.len()
    &&& (text[k] as u32) < 128
    &&& char_covers(text[k], x + 6 * scale * k, y, scale, i)
}

/// Writing character `k` adds exactly its dots to those of the first `k` characters.
pub proof fn lemma_text_step(text: Seq<char>, k: int, x: int, y: int, scale: int, i: int)
    requires
        0 <= k < text.len(),
    ensures
        text_covers(text, k + 1, x, y, scale, i) == (text_covers(text, k, x, y, scale, i) || ((text[k] as u32) < 128
            && char_covers(text[k], x + 6 * scale * k, y, scale, i))),
{
    let dx = col_of(i) - x;
    if scale > 0 && char_covers(text[k], x + 6 * scale * k, y, scale, i) {
        let d = dx - 6 * scale * k;
        assert(0 <= d && d / scale < 5);
        assert(d < 5 * scale) by {
            lemma_cell(d, scale, d / scale);
            assert((d / scale) * scale + scale <= 5 * scale) by (nonlinear_arith)
                requires d / scale < 5, scale > 0;
        }
        lemma_cell(dx, 6 * scale, k);
        assert(k * (6 * scale) == 6 * scale * k) by (nonlinear_arith);
    }
}

} // verus!
