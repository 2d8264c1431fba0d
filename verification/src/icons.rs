use vstd::prelude::*;

use crate::data::BuildingKind;
use crate::frame::{in_box, EXPEDITION_VIEWPORT_HEIGHT, PIXELS, WIDTH};
use crate::render::Renderer;

verus! {

pub const FOREST: u32 = 0x2f7d43;
pub const STONE: u32 = 0x777d86;
pub const ENEMY: u32 = 0xa84040;
pub const RUIN: u32 = 0x8a6f3d;
pub const PLAYER: u32 = 0xf0d060;

/// Size of one dot of a tile icon: a twelfth of the tile, at least one pixel.
pub open spec fn dot(tile_size: int) -> int {
    if tile_size / 12 > 1 { tile_size / 12 } else { 1 }
}

/// The icon of a tile of side `tile` at `(x, y)` may be drawn at buffer index `i`: inside
/// the tile and inside the clip box.
pub open spec fn in_tile(i: int, x: int, y: int, tile: int, clip: (usize, usize, usize, usize)) -> bool {
    in_box(i, x, y, x + tile, y + tile) && in_box(i, clip.0 as int, clip.1 as int, clip.0 + clip.2, clip.1 + clip.3)
}

/// A tile of at least 12 pixels whose far edges fit in `i32`.
pub open spec fn icon_fits(x: i32, y: i32, tile_size: usize) -> bool {
    &&& 12 <= tile_size <= i32::MAX
    &&& x + tile_size <= i32::MAX
    &&& y + tile_size <= i32::MAX
}

/// A clip box whose far edges fit in `i32`.
pub open spec fn clip_fits(clip: (usize, usize, usize, usize)) -> bool {
    clip.0 + clip.2 <= i32::MAX && clip.1 + clip.3 <= i32::MAX
}

/// The clip box of the expedition map.
pub open spec fn map_clip() -> (usize, usize, usize, usize) {
    (0, 0, WIDTH, EXPEDITION_VIEWPORT_HEIGHT)
}

/// The color at buffer index `i` after filling the box `w` × `h` at `(x, y)`, cut to the
/// clip box, with `color` over `under`.
pub open spec fn clip_paint(under: u32, i: int, x: int, y: int, w: int, h: int, color: u32, clip: (usize, usize, usize, usize)) -> u32 {
    if in_box(i, x, y, x + w, y + h) && in_box(i, clip.0 as int, clip.1 as int, clip.0 + clip.2, clip.1 + clip.3) {
        color
    } else {
        under
    }
}

/// The color at buffer index `i` once the icon of a base building of kind `kind` is drawn
/// on the tile of side `tile` at `(x, y)`, cut to the clip box, over `under`; its shapes
/// are laid out in dots of a twelfth of the tile.
pub open spec fn building_icon_px(kind: BuildingKind, x: int, y: int, tile: int, clip: (usize, usize, usize, usize), under: u32, i: int) -> u32 {
    let s = dot(tile);
    match kind {
        BuildingKind::Campfire => {
            let a = clip_paint(under, i, x + 2 * s, y + 5 * s, 8 * s, 5 * s, 0x6b4a2f, clip);
            let b = clip_paint(a, i, x + 3 * s, y + 3 * s, 6 * s, 3 * s, 0xb98957, clip);
            let c = clip_paint(b, i, x + 2 * s, y + 4 * s, 8 * s, s, 0x3f3024, clip);
            let e = clip_paint(c, i, x + 4 * s, y + 6 * s, s, 3 * s, 0xd7c59a, clip);
            let f = clip_paint(e, i, x + 7 * s, y + 6 * s, s, 3 * s, 0xd7c59a, clip);
            clip_paint(f, i, x + 5 * s, y + 2 * s, 2 * s, 2 * s, 0x7aa06c, clip)
        },
        BuildingKind::Storehouse => {
            let a = clip_paint(under, i, x + 2 * s, y + 6 * s, 8 * s, 4 * s, 0x6b4a2f, clip);
            let b = clip_paint(a, i, x + 3 * s, y + 4 * s, 6 * s, 2 * s, 0xb98957, clip);
            clip_paint(b, i, x + 4 * s, y + 7 * s, 4 * s, 3 * s, 0x3f3024, clip)
        },
        BuildingKind::Workbench => {
            let a = clip_paint(under, i, x + 2 * s, y + 5 * s, 8 * s, 2 * s, 0x6b4a2f, clip);
            let b = clip_paint(a, i, x + 3 * s, y + 7 * s, s, 3 * s, 0x3f3024, clip);
            let c = clip_paint(b, i, x + 8 * s, y + 7 * s, s, 3 * s, 0x3f3024, clip);
            clip_paint(c, i, x + 5 * s, y + 3 * s, 3 * s, 2 * s, 0xc9b98e, clip)
        },
        BuildingKind::ResearchTable => {
            let a = clip_paint(under, i, x + 3 * s, y + 6 * s, 6 * s, 4 * s, 0x4f6fae, clip);
            let b = clip_paint(a, i, x + 4 * s, y + 3 * s, 4 * s, 3 * s, 0x8fb3f4, clip);
            clip_paint(b, i, x + 5 * s, y + 4 * s, 2 * s, s, 0xf0d060, clip)
        },
        BuildingKind::TrainingDummy => {
            let a = clip_paint(under, i, x + 5 * s, y + 2 * s, 2 * s, 2 * s, 0xc47b6b, clip);
            let b = clip_paint(a, i, x + 5 * s, y + 4 * s, 2 * s, 5 * s, 0x6b4a2f, clip);
            let c = clip_paint(b, i, x + 3 * s, y + 5 * s, 6 * s, s, 0xd7c59a, clip);
            clip_paint(c, i, x + 4 * s, y + 9 * s, 4 * s, s, 0x3f3024, clip)
        },
    }
}

/// The color at buffer index `i` once a tree is drawn on the map tile of side `tile` at
/// `(x, y)` over `under`.
pub open spec fn tree_icon_px(x: int, y: int, tile: int, under: u32, i: int) -> u32 {
    let s = dot(tile);
    let clip = map_clip();
    let center = x + tile / 2;
    let top = y + 2 * s;
    let a = clip_paint(under, i, center - s, y + 7 * s, 2 * s, 4 * s, 0x6b4a2f, clip);
    let b = clip_paint(a, i, center - 3 * s, top + 2 * s, 6 * s, 3 * s, FOREST, clip);
    let c = clip_paint(b, i, center - 2 * s, top, 4 * s, 3 * s, 0x3fa35a, clip);
    clip_paint(c, i, center - 4 * s, top + 4 * s, 8 * s, 3 * s, 0x2f7d43, clip)
}

/// The color at buffer index `i` once a rock is drawn on the map tile of side `tile` at
/// `(x, y)` over `under`.
pub open spec fn stone_icon_px(x: int, y: int, tile: int, under: u32, i: int) -> u32 {
    let s = dot(tile);
    let clip = map_clip();
    let left = x + 2 * s;
    let top = y + 4 * s;
    let a = clip_paint(under, i, left, top + 2 * s, 8 * s, 5 * s, 0x5f6872, clip);
    let b = clip_paint(a, i, left + 2 * s, top, 5 * s, 4 * s, STONE, clip);
    clip_paint(b, i, left + 5 * s, top + s, 3 * s, 3 * s, 0x9aa5b1, clip)
}

/// The color at buffer index `i` once a berry bush is drawn on the map tile of side `tile`
/// at `(x, y)` over `under`.
pub open spec fn berry_icon_px(x: int, y: int, tile: int, under: u32, i: int) -> u32 {
    let s = dot(tile);
    let clip = map_clip();
    let cx = x + tile / 2;
    let cy = y + tile / 2;
    let a = clip_paint(under, i, cx - 4 * s, cy, 8 * s, 4 * s, 0x3f8f4f, clip);
    let b = clip_paint(a, i, cx - 3 * s, cy - 2 * s, 6 * s, 3 * s, 0x4fa65e, clip);
    let c = clip_paint(b, i, cx - 3 * s, cy, 2 * s, 2 * s, 0xc44b6a, clip);
    let e = clip_paint(c, i, cx, cy - s, 2 * s, 2 * s, 0xc44b6a, clip);
    let f = clip_paint(e, i, cx + 3 * s, cy + s, 2 * s, 2 * s, 0xc44b6a, clip);
    clip_paint(f, i, cx - s, cy + 2 * s, 2 * s, 2 * s, 0xc44b6a, clip)
}

/// The color at buffer index `i` once a ruin is drawn over the two by two tiles of side
/// `tile` in all at `(x, y)` over `under`.
pub open spec fn ruin_icon_px(x: int, y: int, tile: int, under: u32, i: int) -> u32 {
    let s = dot(tile);
    let clip = map_clip();
    let left = x + 2 * s;
    let top = y + 2 * s;
    let a = clip_paint(under, i, left, top + 6 * s, 8 * s, 3 * s, RUIN, clip);
    let b = clip_paint(a, i, left + s, top + 2 * s, 2 * s, 5 * s, 0xd6b15f, clip);
    let c = clip_paint(b, i, left + 5 * s, top + s, 2 * s, 6 * s, 0xd6b15f, clip);
    clip_paint(c, i, left, top, 9 * s, 2 * s, 0xf0d060, clip)
}

/// The color at buffer index `i` once an enemy, raised or lowered by `bob`, is drawn on
/// the map tile of side `tile` at `(x, y)` over `under`.
pub open spec fn enemy_icon_px(x: int, y: int, tile: int, bob: int, under: u32, i: int) -> u32 {
    let s = dot(tile);
    let clip = map_clip();
    let cx = x + tile / 2;
    let cy = y + tile / 2 + bob;
    let a = clip_paint(under, i, cx - 4 * s, cy - 3 * s, 8 * s, 7 * s, ENEMY, clip);
    let b = clip_paint(a, i, cx - 6 * s, cy - s, 2 * s, 5 * s, 0x6d2020, clip);
    let c = clip_paint(b, i, cx + 4 * s, cy - s, 2 * s, 5 * s, 0x6d2020, clip);
    let e = clip_paint(c, i, cx - 2 * s, cy - s, s, s, 0xffd1d1, clip);
    clip_paint(e, i, cx + s, cy - s, s, s, 0xffd1d1, clip)
}

/// The color at buffer index `i` once the player, raised or lowered by `bob`, is drawn on
/// the map tile of side `tile` at `(x, y)` over `under`.
pub open spec fn player_marker_px(x: int, y: int, tile: int, bob: int, under: u32, i: int) -> u32 {
    let s = dot(tile);
    let clip = map_clip();
    let px = x + tile / 2 - 6 * s;
    let py = y + tile / 2 - 6 * s + bob;
    let a = clip_paint(under, i, px + 4 * s, py + s, 4 * s, 4 * s, 0xffdf7a, clip);
    let b = clip_paint(a, i, px + 3 * s, py + 5 * s, 6 * s, 4 * s, PLAYER, clip);
    let c = clip_paint(b, i, px + s, py + 6 * s, 2 * s, 3 * s, 0x6b8fd6, clip);
    let e = clip_paint(c, i, px + 9 * s, py + 6 * s, 2 * s, 3 * s, 0x6b8fd6, clip);
    let f = clip_paint(e, i, px + 3 * s, py + 9 * s, 2 * s, 3 * s, 0x1a2430, clip);
    let g = clip_paint(f, i, px + 7 * s, py + 9 * s, 2 * s, 3 * s, 0x1a2430, clip);
    clip_paint(g, i, px + 2 * s, py, 8 * s, s, 0x5a3e2b, clip)
}

fn dot_size(tile_size: usize) -> (s: usize)
    requires
        12 <= tile_size <= i32::MAX,
    ensures
        s == dot(tile_size as int),
        1 <= s,
        12 * s <= tile_size,
{
    if tile_size / 12 > 1 { tile_size / 12 } else { 1 }
}

impl Renderer {
    /// The icon of a base building on its tile, drawn inside the tile and the clip box.
    pub fn draw_base_building_icon(&mut self, kind: BuildingKind, x: i32, y: i32, tile_size: usize, clip: (usize, usize, usize, usize))
        requires
            old(self).wf(),
            icon_fits(x, y, tile_size),
            clip_fits(clip),
        ensures
            final(self).wf(),
            final(self).label_data() == old(self).label_data(),
            forall|i: int|
                0 <= i < PIXELS && !in_tile(i, x as int, y as int, tile_size as int, clip) ==> #[trigger] final(self).frame()[i]
                    == old(self).frame()[i],
            forall|i: int|
                0 <= i < PIXELS ==> #[trigger] final(self).frame()[i] == building_icon_px(kind, x as int, y as int, tile_size as int, clip, old(self).frame()[i], i),
    {
        let s = dot_size(tile_size);
        let d = s as i32;
        match kind {
            BuildingKind::Campfire => {
                self.rect_clipped(x + 2 * d, y + 5 * d, 8 * s, 5 * s, 0x6b4a2f, clip);
                self.rect_clipped(x + 3 * d, y + 3 * d, 6 * s, 3 * s, 0xb98957, clip);
                self.rect_clipped(x + 2 * d, y + 4 * d, 8 * s, s, 0x3f3024, clip);
                self.rect_clipped(x + 4 * d, y + 6 * d, s, 3 * s, 0xd7c59a, clip);
                self.rect_clipped(x + 7 * d, y + 6 * d, s, 3 * s, 0xd7c59a, clip);
                self.rect_clipped(x + 5 * d, y + 2 * d, 2 * s, 2 * s, 0x7aa06c, clip);
            },
            BuildingKind::Storehouse => {
                self.rect_clipped(x + 2 * d, y + 6 * d, 8 * s, 4 * s, 0x6b4a2f, clip);
                self.rect_clipped(x + 3 * d, y + 4 * d, 6 * s, 2 * s, 0xb98957, clip);
                self.rect_clipped(x + 4 * d, y + 7 * d, 4 * s, 3 * s, 0x3f3024, clip);
            },
            BuildingKind::Workbench => {
                self.rect_clipped(x + 2 * d, y + 5 * d, 8 * s, 2 * s, 0x6b4a2f, clip);
                self.rect_clipped(x + 3 * d, y + 7 * d, s, 3 * s, 0x3f3024, clip);
                self.rect_clipped(x + 8 * d, y + 7 * d, s, 3 * s, 0x3f3024, clip);
                self.rect_clipped(x + 5 * d, y + 3 * d, 3 * s, 2 * s, 0xc9b98e, clip);
            },
            BuildingKind::ResearchTable => {
                self.rect_clipped(x + 3 * d, y + 6 * d, 6 * s, 4 * s, 0x4f6fae, clip);
                self.rect_clipped(x + 4 * d, y + 3 * d, 4 * s, 3 * s, 0x8fb3f4, clip);
                self.rect_clipped(x + 5 * d, y + 4 * d, 2 * s, s, 0xf0d060, clip);
            },
            BuildingKind::TrainingDummy => {
                self.rect_clipped(x + 5 * d, y + 2 * d, 2 * s, 2 * s, 0xc47b6b, clip);
                self.rect_clipped(x + 5 * d, y + 4 * d, 2 * s, 5 * s, 0x6b4a2f, clip);
                self.rect_clipped(x + 3 * d, y + 5 * d, 6 * s, s, 0xd7c59a, clip);
                self.rect_clipped(x + 4 * d, y + 9 * d, 4 * s, s, 0x3f3024, clip);
            },
        }
    }

    /// A tree on a forest tile of the expedition map.
    pub fn draw_tree_icon(&mut self, x: i32, y: i32, tile_size: usize)
        requires
            old(self).wf(),
            icon_fits(x, y, tile_size),
        ensures
            final(self).wf(),
            final(self).label_data() == old(self).label_data(),
            forall|i: int|
                0 <= i < PIXELS && !in_tile(i, x as int, y as int, tile_size as int, map_clip()) ==> #[trigger] final(self).frame()[i]
                    == old(self).frame()[i],
            forall|i: int|
                0 <= i < PIXELS ==> #[trigger] final(self).frame()[i] == tree_icon_px(x as int, y as int, tile_size as int, old(self).frame()[i], i),
    {
        let s = dot_size(tile_size);
        let d = s as i32;
        let clip = (0, 0, WIDTH, EXPEDITION_VIEWPORT_HEIGHT);
        let center = x + (tile_size / 2) as i32;
        let top = y + 2 * d;
        let trunk_y = y + 7 * d;
        self.rect_clipped(center - d, trunk_y, 2 * s, 4 * s, 0x6b4a2f, clip);
        self.rect_clipped(center - 3 * d, top + 2 * d, 6 * s, 3 * s, FOREST, clip);
        self.rect_clipped(center - 2 * d, top, 4 * s, 3 * s, 0x3fa35a, clip);
        self.rect_clipped(center - 4 * d, top + 4 * d, 8 * s, 3 * s, 0x2f7d43, clip);
    }

    /// A rock on a stone tile of the expedition map.
    pub fn draw_stone_icon(&mut self, x: i32, y: i32, tile_size: usize)
        requires
            old(self).wf(),
            icon_fits(x, y, tile_size),
        ensures
            final(self).wf(),
            final(self).label_data() == old(self).label_data(),
            forall|i: int|
                0 <= i < PIXELS && !in_tile(i, x as int, y as int, tile_size as int, map_clip()) ==> #[trigger] final(self).frame()[i]
                    == old(self).frame()[i],
            forall|i: int|
                0 <= i < PIXELS ==> #[trigger] final(self).frame()[i] == stone_icon_px(x as int, y as int, tile_size as int, old(self).frame()[i], i),
    {
        let s = dot_size(tile_size);
        let d = s as i32;
        let clip = (0, 0, WIDTH, EXPEDITION_VIEWPORT_HEIGHT);
        let left = x + 2 * d;
        let top = y + 4 * d;
        self.rect_clipped(left, top + 2 * d, 8 * s, 5 * s, 0x5f6872, clip);
        self.rect_clipped(left + 2 * d, top, 5 * s, 4 * s, STONE, clip);
        self.rect_clipped(left + 5 * d, top + d, 3 * s, 3 * s, 0x9aa5b1, clip);
    }

    /// A berry bush on a berry tile of the expedition map.
    pub fn draw_berry_icon(&mut self, x: i32, y: i32, tile_size: usize)
        requires
            old(self).wf(),
            icon_fits(x, y, tile_size),
        ensures
            final(self).wf(),
            final(self).label_data() == old(self).label_data(),
            forall|i: int|
                0 <= i < PIXELS && !in_tile(i, x as int, y as int, tile_size as int, map_clip()) ==> #[trigger] final(self).frame()[i]
                    == old(self).frame()[i],
            forall|i: int|
                0 <= i < PIXELS ==> #[trigger] final(self).frame()[i] == berry_icon_px(x as int, y as int, tile_size as int, old(self).frame()[i], i),
    {
        let s = dot_size(tile_size);
        let d = s as i32;
        let clip = (0, 0, WIDTH, EXPEDITION_VIEWPORT_HEIGHT);
        let cx = x + (tile_size / 2) as i32;
        let cy = y + (tile_size / 2) as i32;
        self.rect_clipped(cx - 4 * d, cy, 8 * s, 4 * s, 0x3f8f4f, clip);
        self.rect_clipped(cx - 3 * d, cy - 2 * d, 6 * s, 3 * s, 0x4fa65e, clip);
        self.rect_clipped(cx - 3 * d, cy, 2 * s, 2 * s, 0xc44b6a, clip);
        self.rect_clipped(cx, cy - d, 2 * s, 2 * s, 0xc44b6a, clip);
        self.rect_clipped(cx + 3 * d, cy + d, 2 * s, 2 * s, 0xc44b6a, clip);
        self.rect_clipped(cx - d, cy + 2 * d, 2 * s, 2 * s, 0xc44b6a, clip);
    }

    /// A ruin spanning two by two tiles; `tile_size` is the side of the whole ruin.
    pub fn draw_ruin_icon(&mut self, x: i32, y: i32, tile_size: usize)
        requires
            old(self).wf(),
            icon_fits(x, y, tile_size),
        ensures
            final(self).wf(),
            final(self).label_data() == old(self).label_data(),
            forall|i: int|
                0 <= i < PIXELS && !in_tile(i, x as int, y as int, tile_size as int, map_clip()) ==> #[trigger] final(self).frame()[i]
                    == old(self).frame()[i],
            forall|i: int|
                0 <= i < PIXELS ==> #[trigger] final(self).frame()[i] == ruin_icon_px(x as int, y as int, tile_size as int, old(self).frame()[i], i),
    {
        let s = dot_size(tile_size);
        let d = s as i32;
        let clip = (0, 0, WIDTH, EXPEDITION_VIEWPORT_HEIGHT);
        let left = x + 2 * d;
        let top = y + 2 * d;
        self.rect_clipped(left, top + 6 * d, 8 * s, 3 * s, RUIN, clip);
        self.rect_clipped(left + d, top + 2 * d, 2 * s, 5 * s, 0xd6b15f, clip);
        self.rect_clipped(left + 5 * d, top + d, 2 * s, 6 * s, 0xd6b15f, clip);
        self.rect_clipped(left, top, 9 * s, 2 * s, 0xf0d060, clip);
    }

    /// An enemy on its tile, raised or lowered by `bob` pixels as it sways.
    pub fn draw_enemy_icon(&mut self, x: i32, y: i32, tile_size: usize, bob: i32)
        requires
            old(self).wf(),
            icon_fits(x, y, tile_size),
            -dot(tile_size as int) <= bob <= dot(tile_size as int),
        ensures
            final(self).wf(),
            final(self).label_data() == old(self).label_data(),
            forall|i: int|
                0 <= i < PIXELS && !in_tile(i, x as int, y + bob, tile_size as int, map_clip()) ==> #[trigger] final(self).frame()[i]
                    == old(self).frame()[i],
            forall|i: int|
                0 <= i < PIXELS ==> #[trigger] final(self).frame()[i] == enemy_icon_px(x as int, y as int, tile_size as int, bob as int, old(self).frame()[i], i),
    {
        let s = dot_size(tile_size);
        let d = s as i32;
        let clip = (0, 0, WIDTH, EXPEDITION_VIEWPORT_HEIGHT);
        let cx = x + (tile_size / 2) as i32;
        let cy = y + (tile_size / 2) as i32 + bob;
        self.rect_clipped(cx - 4 * d, cy - 3 * d, 8 * s, 7 * s, ENEMY, clip);
        self.rect_clipped(cx - 6 * d, cy - d, 2 * s, 5 * s, 0x6d2020, clip);
        self.rect_clipped(cx + 4 * d, cy - d, 2 * s, 5 * s, 0x6d2020, clip);
        self.rect_clipped(cx - 2 * d, cy - d, s, s, 0xffd1d1, clip);
        self.rect_clipped(cx + d, cy - d, s, s, 0xffd1d1, clip);
    }

    /// The player on its tile, raised or lowered by `bob` pixels as it walks.
    pub fn draw_player_marker(&mut self, x: i32, y: i32, tile_size: usize, bob: i32)
        requires
            old(self).wf(),
            icon_fits(x, y, tile_size),
            -dot(tile_size as int) <= bob <= dot(tile_size as int),
            y + tile_size / 2 - 6 * dot(tile_size as int) + bob >= i32::MIN,
        ensures
            final(self).wf(),
            final(self).label_data() == old(self).label_data(),
            forall|i: int|
                0 <= i < PIXELS && !in_tile(i, x as int, y + bob, tile_size as int, map_clip()) ==> #[trigger] final(self).frame()[i]
                    == old(self).frame()[i],
            forall|i: int|
                0 <= i < PIXELS ==> #[trigger] final(self).frame()[i] == player_marker_px(x as int, y as int, tile_size as int, bob as int, old(self).frame()[i], i),
    {
        let s = dot_size(tile_size);
        let d = s as i32;
        let clip = (0, 0, WIDTH, EXPEDITION_VIEWPORT_HEIGHT);
        let px = x + (tile_size as i32 / 2) - 6 * d;
        let py = y + (tile_size as i32 / 2) - 6 * d + bob;
        self.rect_clipped(px + 4 * d, py + d, 4 * s, 4 * s, 0xffdf7a, clip);
        self.rect_clipped(px + 3 * d, py + 5 * d, 6 * s, 4 * s, PLAYER, clip);
        self.rect_clipped(px + d, py + 6 * d, 2 * s, 3 * s, 0x6b8fd6, clip);
        self.rect_clipped(px + 9 * d, py + 6 * d, 2 * s, 3 * s, 0x6b8fd6, clip);
        self.rect_clipped(px + 3 * d, py + 9 * d, 2 * s, 3 * s, 0x1a2430, clip);
        self.rect_clipped(px + 7 * d, py + 9 * d, 2 * s, 3 * s, 0x1a2430, clip);
        self.rect_clipped(px + 2 * d, py, 8 * s, s, 0x5a3e2b, clip);
    }
}

} // verus!
