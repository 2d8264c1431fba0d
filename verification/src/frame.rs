use vstd::prelude::*;

verus! {

/// Window size in pixels.
pub const WIDTH: usize = 1280;
pub const HEIGHT: usize = 720;
/// The base map's part of the window; the side panel fills the rest.
pub const BASE_VIEWPORT_WIDTH: usize = 1000;
pub const BASE_VIEWPORT_HEIGHT: usize = 696;
/// The expedition map's part of the window; the hand fills the rest.
pub const EXPEDITION_VIEWPORT_HEIGHT: usize = 588;
/// Top edge of the hand's cards.
pub const EXPEDITION_HAND_Y: usize = 608;
/// Number of pixels of a frame, row after row.
pub const PIXELS: usize = 921600;

/// Column of the pixel at buffer index `i`.
pub open spec fn col_of(i: int) -> int {
    i % (WIDTH as int)
}

/// Row of the pixel at buffer index `i`.
pub open spec fn row_of(i: int) -> int {
    i / (WIDTH as int)
}

/// The pixel at buffer index `i` lies in columns `x0..x1` and rows `y0..y1`.
pub open spec fn in_box(i: int, x0: int, y0: int, x1: int, y1: int) -> bool {
    x0 <= col_of(i) < x1 && y0 <= row_of(i) < y1
}

/// Buffer index of the on-screen pixel at column `x`, row `y`.
pub proof fn lemma_pixel_index(x: int, y: int)
    requires
        0 <= x < WIDTH,
        0 <= y < HEIGHT,
    ensures
        0 <= y * (WIDTH as int) + x < PIXELS,
        col_of(y * (WIDTH as int) + x) == x,
        row_of(y * (WIDTH as int) + x) == y,
{
}

/// Every buffer index names a pixel on screen.
pub broadcast proof fn lemma_pixel_bounds(i: int)
    requires
        0 <= i < PIXELS,
    ensures
        0 <= #[trigger] col_of(i) < WIDTH,
        0 <= row_of(i) < HEIGHT,
{
}

} // verus!
