use vstd::prelude::*;

use crate::frame::{in_box, lemma_pixel_bounds, lemma_pixel_index};
use crate::labels::bitmap_ok;
pub use crate::frame::{
    BASE_VIEWPORT_HEIGHT, BASE_VIEWPORT_WIDTH, EXPEDITION_HAND_Y, EXPEDITION_VIEWPORT_HEIGHT, HEIGHT, PIXELS,
    WIDTH,
};

verus! {

/// A frame buffer of `WIDTH` × `HEIGHT` pixels (`0xRRGGBB`), and the bitmaps of the
/// interface labels.
pub struct Renderer {
    buffer: Vec<u32>,
    labels: Vec<Vec<u8>>,
}

broadcast use lemma_pixel_bounds;

impl Renderer {
    /// The pixels, row after row.
    pub closed spec fn frame(&self) -> Seq<u32> {
        self.buffer@
    }

    /// The label bitmaps, by label number.
    pub closed spec fn label_data(&self) -> Seq<Seq<u8>> {
        self.labels@.map_values(|l: Vec<u8>| l@)
    }

    pub open spec fn wf(&self) -> bool {
        &&& self.frame().len() == PIXELS
        &&& self.label_data().len() == crate::labels::LABEL_COUNT
        &&& forall|l: int| 0 <= l < crate::labels::LABEL_COUNT ==> bitmap_ok(#[trigger] self.label_data()[l])
    }

    /// The bitmap of the label numbered `label`.
    pub fn label_bitmap(&self, label: usize) -> (b: &[u8])
        requires
            self.wf(),
            label < crate::labels::LABEL_COUNT,
        ensures
            b@ == self.label_data()[label as int],
    {
        self.labels[label].as_slice()
    }

    /// A black frame with no label bitmaps loaded.
    pub fn new() -> (r: Renderer)
        ensures
            r.wf(),
            forall|i: int| 0 <= i < PIXELS ==> #[trigger] r.frame()[i] == 0,
            forall|l: int| 0 <= l < crate::labels::LABEL_COUNT ==> #[trigger] r.label_data()[l].len() == 0,
    {
        let buffer: Vec<u32> = vec![0u32; PIXELS];
        let mut labels: Vec<Vec<u8>> = Vec::new();
        let mut n: usize = 0;
        while n < crate::labels::LABEL_COUNT
            invariant
                n <= crate::labels::LABEL_COUNT,
                labels.len() == n,
                forall|l: int| 0 <= l < n ==> #[trigger] labels@[l]@.len() == 0,
            decreases crate::labels::LABEL_COUNT - n,
        {
            labels.push(Vec::new());
            n = n + 1;
        }
        let r = Renderer { buffer, labels };
        assert(r.label_data().len() == crate::labels::LABEL_COUNT);
        r
    }

    /// The pixels, row after row, as the window expects them.
    pub fn buffer(&self) -> (b: &[u32])
        ensures
            b@ == self.frame(),
    {
        self.buffer.as_slice()
    }

    /// Gives the label numbered `label` its bitmap: width and height as little-endian
    /// 16-bit numbers, then one alpha byte per pixel, row after row.
    pub fn set_label(&mut self, label: usize, bitmap: Vec<u8>)
        requires
            old(self).wf(),
            label < crate::labels::LABEL_COUNT,
            bitmap_ok(bitmap@),
        ensures
            final(self).wf(),
            final(self).frame() == old(self).frame(),
            final(self).label_data() == old(self).label_data().update(label as int, bitmap@),
    {
        self.labels.set(label, bitmap);
        assert(self.label_data() =~= old(self).label_data().update(label as int, bitmap@));
    }

    /// Fills the whole frame with `color`.
    pub fn clear(&mut self, color: u32)
        requires
            old(self).wf(),
        ensures
            final(self).wf(),
            final(self).label_data() == old(self).label_data(),
            forall|i: int| 0 <= i < PIXELS ==> #[trigger] final(self).frame()[i] == color,
    {
        let mut i: usize = 0;
        while i < PIXELS
            invariant
                i <= PIXELS,
                self.wf(),
                self.label_data() == old(self).label_data(),
                forall|j: int| 0 <= j < i ==> #[trigger] self.frame()[j] == color,
            decreases PIXELS - i,
        {
            self.buffer.set(i, color);
            i = i + 1;
        }
    }

    /// Fills the on-screen part of the box at `(x, y)` of the given size.
    pub fn rect(&mut self, x: usize, y: usize, width: usize, height: usize, color: u32)
        requires
            old(self).wf(),
            x + width <= usize::MAX,
            y + height <= usize::MAX,
        ensures
            final(self).wf(),
            final(self).label_data() == old(self).label_data(),
            forall|i: int|
                0 <= i < PIXELS ==> #[trigger] final(self).frame()[i] == if in_box(
                    i,
                    x as int,
                    y as int,
                    x + width,
                    y + height,
                ) {
                    color
                } else {
                    old(self).frame()[i]
                },
    {
        let max_x = if x + width < WIDTH { x + width } else { WIDTH };
        let max_y = if y + height < HEIGHT { y + height } else { HEIGHT };
        let ghost before = self.frame();
        let mut row = y;
        while row < max_y
            invariant
                y <= row,
                row <= max_y || row == y,
                max_y <= HEIGHT,
                max_x <= WIDTH,
                max_x <= x + width,
                max_y <= y + height,
                max_x == WIDTH || max_x == x + width,
                max_y == HEIGHT || max_y == y + height,
                self.wf(),
                self.label_data() == old(self).label_data(),
                before == old(self).frame(),
                forall|i: int|
                    0 <= i < PIXELS ==> #[trigger] self.frame()[i] == if in_box(i, x as int, y as int, x + width, row as int) {
                        color
                    } else {
                        before[i]
                    },
            decreases max_y - row,
        {
            let mut col = x;
            while col < max_x
                invariant
                    x <= col,
                    col <= max_x || col == x,
                    y <= row < max_y,
                    max_y <= HEIGHT,
                    max_x <= WIDTH,
                    max_x <= x + width,
                    max_x == WIDTH || max_x == x + width,
                    self.wf(),
                    self.label_data() == old(self).label_data(),
                    forall|i: int|
                        0 <= i < PIXELS ==> #[trigger] self.frame()[i] == if in_box(i, x as int, y as int, x + width, row as int)
                            || in_box(i, x as int, row as int, col as int, row + 1) {
                            color
                        } else {
                            before[i]
                        },
                decreases max_x - col,
            {
                proof {
                    lemma_pixel_index(col as int, row as int);
                }
                self.buffer.set(row * WIDTH + col, color);
                col = col + 1;
            }
            row = row + 1;
        }
    }

    /// Fills the part of the box at `(x, y)` of the given size that lies inside the clip
    /// box `(clip_x, clip_y, clip_width, clip_height)` and on screen.
    pub fn rect_clipped(&mut self, x: i32, y: i32, width: usize, height: usize, color: u32, clip: (usize, usize, usize, usize))
        requires
            old(self).wf(),
            width <= i32::MAX,
            height <= i32::MAX,
            clip.0 + clip.2 <= i32::MAX,
            clip.1 + clip.3 <= i32::MAX,
        ensures
            final(self).wf(),
            final(self).label_data() == old(self).label_data(),
            forall|i: int|
                0 <= i < PIXELS ==> #[trigger] final(self).frame()[i] == if in_box(i, x as int, y as int, x + width, y + height)
                    && in_box(i, clip.0 as int, clip.1 as int, clip.0 + clip.2, clip.1 + clip.3) {
                    color
                } else {
                    old(self).frame()[i]
                },
    {
        let (min_x, min_y, max_x, max_y) = clipped_span(x, y, width, height, clip);
        if max_x <= min_x || max_y <= min_y {
            assert forall|i: int| 0 <= i < PIXELS implies !(#[trigger] in_box(i, x as int, y as int, x + width, y + height) && in_box(
                i,
                clip.0 as int,
                clip.1 as int,
                clip.0 + clip.2,
                clip.1 + clip.3,
            )) by {
                assert(!in_box(i, min_x as int, min_y as int, max_x as int, max_y as int));
            }
            return;
        }
        self.rect(min_x as usize, min_y as usize, (max_x - min_x) as usize, (max_y - min_y) as usize, color);
    }

    /// Blends `color` over the pixel at `(x, y)` with opacity `alpha` out of 255; a pixel
    /// off screen is left alone.
    pub fn blend_pixel(&mut self, x: usize, y: usize, color: u32, alpha: u32)
        requires
            old(self).wf(),
            alpha <= 255,
        ensures
            final(self).wf(),
            final(self).label_data() == old(self).label_data(),
            x >= WIDTH || y >= HEIGHT ==> final(self).frame() == old(self).frame(),
            x < WIDTH && y < HEIGHT ==> final(self).frame() == old(self).frame().update(
                y * WIDTH + x,
                blend(color, old(self).frame()[y * WIDTH + x], alpha),
            ),
    {
        if x >= WIDTH || y >= HEIGHT {
            return;
        }
        proof {
            lemma_pixel_index(x as int, y as int);
        }
        let index = y * WIDTH + x;
        let dst = self.buffer[index];
        let value = blend_color(color, dst, alpha);
        self.buffer.set(index, value);
    }

    /// Blends `color` with opacity `alpha` over the part of the box at `(x, y)` that lies
    /// inside the clip box and on screen.
    pub fn blend_rect_clipped(
        &mut self,
        x: i32,
        y: i32,
        width: usize,
        height: usize,
        color: u32,
        alpha: u32,
        clip: (usize, usize, usize, usize),
    )
        requires
            old(self).wf(),
            alpha <= 255,
            width <= i32::MAX,
            height <= i32::MAX,
            clip.0 + clip.2 <= i32::MAX,
            clip.1 + clip.3 <= i32::MAX,
        ensures
            final(self).wf(),
            final(self).label_data() == old(self).label_data(),
            forall|i: int|
                0 <= i < PIXELS ==> #[trigger] final(self).frame()[i] == if in_box(i, x as int, y as int, x + width, y + height)
                    && in_box(i, clip.0 as int, clip.1 as int, clip.0 + clip.2, clip.1 + clip.3) {
                    blend(color, old(self).frame()[i], alpha)
                } else {
                    old(self).frame()[i]
                },
    {
        let (min_x, min_y, max_x, max_y) = clipped_span(x, y, width, height, clip);
        if max_x <= min_x || max_y <= min_y {
            assert forall|i: int| 0 <= i < PIXELS implies !(#[trigger] in_box(i, x as int, y as int, x + width, y + height) && in_box(
                i,
                clip.0 as int,
                clip.1 as int,
                clip.0 + clip.2,
                clip.1 + clip.3,
            )) by {
                assert(!in_box(i, min_x as int, min_y as int, max_x as int, max_y as int));
            }
            return;
        }
        let x0 = min_x as usize;
        let x1 = max_x as usize;
        let y1 = max_y as usize;
        let ghost before = self.frame();
        let mut row = min_y as usize;
        while row < y1
            invariant
                min_y <= row <= y1,
                0 <= min_x < max_x <= WIDTH,
                0 <= min_y < max_y <= HEIGHT,
                x0 == min_x,
                x1 == max_x,
                y1 == max_y,
                alpha <= 255,
                self.wf(),
                self.label_data() == old(self).label_data(),
                before == old(self).frame(),
                forall|i: int|
                    0 <= i < PIXELS ==> #[trigger] self.frame()[i] == if in_box(i, min_x as int, min_y as int, max_x as int, row as int) {
                        blend(color, before[i], alpha)
                    } else {
                        before[i]
                    },
            decreases y1 - row,
        {
            let mut col = x0;
            while col < x1
                invariant
                    x0 <= col <= x1,
                    min_y <= row < y1,
                    0 <= min_x < max_x <= WIDTH,
                    0 <= min_y < max_y <= HEIGHT,
                    x0 == min_x,
                    x1 == max_x,
                    y1 == max_y,
                    alpha <= 255,
                    self.wf(),
                    self.label_data() == old(self).label_data(),
                    forall|i: int|
                        0 <= i < PIXELS ==> #[trigger] self.frame()[i] == if in_box(i, min_x as int, min_y as int, max_x as int, row as int)
                            || in_box(i, min_x as int, row as int, col as int, row + 1) {
                            blend(color, before[i], alpha)
                        } else {
                            before[i]
                        },
                decreases x1 - col,
            {
                proof {
                    lemma_pixel_index(col as int, row as int);
                }
                self.blend_pixel(col, row, color, alpha);
                col = col + 1;
            }
            row = row + 1;
        }
    }
}


/// The on-screen part of a box at `(x, y)` inside a clip box, as column and row ranges
/// `min_x..max_x`, `min_y..max_y` (empty when the maximum is not above the minimum).
fn clipped_span(x: i32, y: i32, width: usize, height: usize, clip: (usize, usize, usize, usize)) -> (r: (i64, i64, i64, i64))
    requires
        width <= i32::MAX,
        height <= i32::MAX,
        clip.0 + clip.2 <= i32::MAX,
        clip.1 + clip.3 <= i32::MAX,
    ensures
        0 <= r.0,
        0 <= r.1,
        r.2 <= WIDTH,
        r.3 <= HEIGHT,
        r.0 < r.2 && r.1 < r.3 ==> r.0 < WIDTH && r.1 < HEIGHT && 0 < r.2 && 0 < r.3,
        forall|i: int|
            0 <= i < PIXELS ==> (#[trigger] in_box(i, r.0 as int, r.1 as int, r.2 as int, r.3 as int) <==> in_box(
                i,
                x as int,
                y as int,
                x + width,
                y + height,
            ) && in_box(i, clip.0 as int, clip.1 as int, clip.0 + clip.2, clip.1 + clip.3)),
{
    let min_x = max_i64(max_i64(x as i64, clip.0 as i64), 0);
    let min_y = max_i64(max_i64(y as i64, clip.1 as i64), 0);
    let max_x = min_i64(min_i64(x as i64 + width as i64, (clip.0 + clip.2) as i64), WIDTH as i64);
    let max_y = min_i64(min_i64(y as i64 + height as i64, (clip.1 + clip.3) as i64), HEIGHT as i64);
    (min_x, min_y, max_x, max_y)
}

fn max_i64(a: i64, b: i64) -> (r: i64)
    ensures
        r == if a >= b { a } else { b },
{
    if a >= b { a } else { b }
}

fn min_i64(a: i64, b: i64) -> (r: i64)
    ensures
        r == if a <= b { a } else { b },
{
    if a <= b { a } else { b }
}

/// `color` laid over `dst` with opacity `alpha` out of 255, the red and blue channels
/// together and the green channel apart, each weighted sum divided by 256.
pub open spec fn blend(color: u32, dst: u32, alpha: u32) -> u32 {
    let inv = (255 - alpha) as u32;
    let rb = ((((color & 0x00ff00ffu32) * alpha + (dst & 0x00ff00ffu32) * inv) as u32 >> 8u32) & 0x00ff00ffu32) as u32;
    let g = ((((color & 0x0000ff00u32) * alpha + (dst & 0x0000ff00u32) * inv) as u32 >> 8u32) & 0x0000ff00u32) as u32;
    rb | g
}

/// `color` laid over `dst` with opacity `alpha` (see `blend`).
pub fn blend_color(color: u32, dst: u32, alpha: u32) -> (r: u32)
    requires
        alpha <= 255,
    ensures
        r == blend(color, dst, alpha),
{
    let inv = 255 - alpha;
    let c_rb = color & 0x00ff00ff;
    let d_rb = dst & 0x00ff00ff;
    let c_g = color & 0x0000ff00;
    let d_g = dst & 0x0000ff00;
    assert(c_rb <= 0x00ff00ff) by (bit_vector)
        requires c_rb == color & 0x00ff00ffu32;
    assert(d_rb <= 0x00ff00ff) by (bit_vector)
        requires d_rb == dst & 0x00ff00ffu32;
    assert(c_g <= 0x0000ff00) by (bit_vector)
        requires c_g == color & 0x0000ff00u32;
    assert(d_g <= 0x0000ff00) by (bit_vector)
        requires d_g == dst & 0x0000ff00u32;
    assert(c_rb * alpha + d_rb * inv <= 0x00ff00ff * 255) by (nonlinear_arith)
        requires c_rb <= 0x00ff00ff, d_rb <= 0x00ff00ff, alpha + inv == 255, alpha >= 0, inv >= 0;
    assert(c_g * alpha + d_g * inv <= 0x0000ff00 * 255) by (nonlinear_arith)
        requires c_g <= 0x0000ff00, d_g <= 0x0000ff00, alpha + inv == 255, alpha >= 0, inv >= 0;
    let rb = ((c_rb * alpha + d_rb * inv) >> 8) & 0x00ff00ff;
    let g = ((c_g * alpha + d_g * inv) >> 8) & 0x0000ff00;
    rb | g
}

} // verus!
