use vstd::prelude::*;

use crate::card::Card;
use crate::data::BuildingKind;
use crate::expedition::origin_axis;
use crate::expedition::{card_fits, ExpeditionState};
use crate::game::{
    base_extent, base_gap, base_tile, buildings_placed, cargo_fits, digit_erased, digit_typed, evacuated, hand_card_played, hand_reordered,
    has_kind, move_chosen, nonneg, building_placed, researched, went_back, base_panned, base_zoomed, expedition_panned, expedition_zoomed, cost_of, departed, display_name, prep_card_added, prep_card_removed, BaseState, Game, Screen,
    MAX_BASE_SIZE, MAX_PREP_CARDS,
};
use crate::data::{affords, discard_amount, fits_i32, material, total_of, with_material, Resources};
use crate::render::{
    BASE_VIEWPORT_HEIGHT, BASE_VIEWPORT_WIDTH, EXPEDITION_HAND_Y, EXPEDITION_VIEWPORT_HEIGHT,
    HEIGHT, WIDTH,
};

verus! {

/// `(x, y)` lies in the rectangle with top-left corner `(rx, ry)` and the given size.
pub open spec fn in_rect(x: int, y: int, rx: int, ry: int, w: int, h: int) -> bool {
    rx <= x < rx + w && ry <= y < ry + h
}

/// Whether `(x, y)` lies in the rectangle with top-left corner `(rect_x, rect_y)`.
pub fn point_in_rect(x: usize, y: usize, rect_x: usize, rect_y: usize, width: usize, height: usize) -> (b: bool)
    requires
        rect_x + width <= usize::MAX,
        rect_y + height <= usize::MAX,
    ensures
        b == in_rect(x as int, y as int, rect_x as int, rect_y as int, width as int, height as int),
{
    x >= rect_x && x < rect_x + width && y >= rect_y && y < rect_y + height
}

/// The card of the preparation dialog's offer at `index` covers `(x, y)`.
pub open spec fn on_offer_card(x: int, y: int, index: int) -> bool {
    in_rect(x, y, 224 + (index % 3) * 126, 232 + (index / 3) * 126, 100, 104)
}

/// The carried-card slot at `index` of the preparation dialog covers `(x, y)`.
pub open spec fn on_prep_slot(x: int, y: int, index: int) -> bool {
    in_rect(x, y, 656, 210 + index * 56, 120, 44)
}

/// The hand card at `index` of the expedition screen covers `(x, y)`.
pub open spec fn on_hand_card(x: int, y: int, index: int) -> bool {
    in_rect(x, y, 28 + index * 108, EXPEDITION_HAND_Y as int, 92, 84)
}

pub open spec fn offer_hit(x: int, y: int) -> spec_fn(int) -> bool {
    |k: int| on_offer_card(x, y, k)
}

pub open spec fn slot_hit(x: int, y: int) -> spec_fn(int) -> bool {
    |k: int| on_prep_slot(x, y, k)
}

pub open spec fn hand_hit(x: int, y: int) -> spec_fn(int) -> bool {
    |k: int| on_hand_card(x, y, k)
}

/// The first index below `n` for which `hit` holds, if any.
pub open spec fn first_hit(n: int, hit: spec_fn(int) -> bool) -> Option<int>
    decreases n,
{
    if n <= 0 {
        None
    } else {
        match first_hit(n - 1, hit) {
            Some(i) => Some(i),
            None => if hit(n - 1) { Some(n - 1) } else { None },
        }
    }
}

pub proof fn lemma_first_hit(n: int, hit: spec_fn(int) -> bool)
    ensures
        first_hit(n, hit) matches Some(i) ==> 0 <= i < n && hit(i) && forall|j: int| 0 <= j < i ==> !#[trigger] hit(j),
        first_hit(n, hit) is None ==> forall|j: int| 0 <= j < n ==> !#[trigger] hit(j),
    decreases n,
{
    if n > 0 {
        lemma_first_hit(n - 1, hit);
    }
}

pub proof fn lemma_first_hit_found(i: int, m: int, hit: spec_fn(int) -> bool)
    requires
        0 <= i < m,
        first_hit(i, hit) is None,
        hit(i),
    ensures
        first_hit(m, hit) == Some(i),
    decreases m - i,
{
    if m > i + 1 {
        lemma_first_hit_found(i, m - 1, hit);
    }
}

/// The offered card of the preparation dialog under `(x, y)`, if any.
pub fn expedition_card_index_at(x: usize, y: usize) -> (r: Option<usize>)
    ensures
        r matches Some(i) ==> first_hit(2, offer_hit(x as int, y as int)) == Some(i as int),
        r is None ==> first_hit(2, offer_hit(x as int, y as int)) is None,
{
    let ghost hit = offer_hit(x as int, y as int);
    let panel_x = BASE_VIEWPORT_WIDTH / 2 - 316;
    let panel_y = BASE_VIEWPORT_HEIGHT / 2 - 212;
    let n = Card::available_cards().len();
    let mut index: usize = 0;
    while index < n
        invariant
            n == 2,
            index <= n,
            panel_x == 184,
            panel_y == 136,
            first_hit(index as int, hit) is None,
            hit == offer_hit(x as int, y as int),
        decreases n - index,
    {
        let card_x = panel_x + 40 + (index % 3) * 126;
        let card_y = panel_y + 96 + (index / 3) * 126;
        proof {
            assert((index as int) % 3 == index as int && (index as int) / 3 == 0) by (nonlinear_arith)
                requires index < 2;
        }
        if point_in_rect(x, y, card_x, card_y, 100, 104) {
            assert(hit(index as int));
            proof {
                lemma_first_hit_found(index as int, 2, hit);
            }
            return Some(index);
        }
        index = index + 1;
    }
    None
}

/// The carried-card slot of the preparation dialog under `(x, y)`, if any.
pub fn expedition_slot_index_at(x: usize, y: usize) -> (r: Option<usize>)
    ensures
        r matches Some(i) ==> first_hit(5, slot_hit(x as int, y as int)) == Some(i as int),
        r is None ==> first_hit(5, slot_hit(x as int, y as int)) is None,
{
    let ghost hit = slot_hit(x as int, y as int);
    let panel_x = BASE_VIEWPORT_WIDTH / 2 - 316;
    let panel_y = BASE_VIEWPORT_HEIGHT / 2 - 212;
    let mut index: usize = 0;
    while index < 5
        invariant
            index <= 5,
            panel_x == 184,
            panel_y == 136,
            first_hit(index as int, hit) is None,
            hit == slot_hit(x as int, y as int),
        decreases 5 - index,
    {
        if point_in_rect(x, y, panel_x + 472, panel_y + 74 + index * 56, 120, 44) {
            assert(on_prep_slot(x as int, y as int, index as int));
            assert(hit(index as int));
            proof {
                lemma_first_hit_found(index as int, 5, hit);
            }
            return Some(index);
        }
        index = index + 1;
    }
    None
}

/// The hand card of the expedition screen under `(x, y)`, if any.
pub fn expedition_hand_card_index_at(x: usize, y: usize) -> (r: Option<usize>)
    ensures
        r matches Some(i) ==> first_hit(5, hand_hit(x as int, y as int)) == Some(i as int),
        r is None ==> first_hit(5, hand_hit(x as int, y as int)) is None,
{
    let ghost hit = hand_hit(x as int, y as int);
    if y < EXPEDITION_HAND_Y || y >= EXPEDITION_HAND_Y + 84 {
        proof {
            lemma_first_hit(5, hit);
            assert(first_hit(5, hit) is None) by {
                if first_hit(5, hit) is Some {
                    let i = first_hit(5, hit)->0;
                    assert(hit(i));
                }
            }
        }
        return None;
    }
    let mut index: usize = 0;
    while index < 5
        invariant
            index <= 5,
            first_hit(index as int, hit) is None,
            hit == hand_hit(x as int, y as int),
        decreases 5 - index,
    {
        let card_x = 28 + index * 108;
        if point_in_rect(x, y, card_x, EXPEDITION_HAND_Y, 92, 84) {
            assert(hit(index as int));
            proof {
                lemma_first_hit_found(index as int, 5, hit);
            }
            return Some(index);
        }
        index = index + 1;
    }
    None
}

/// The hand slot a card dropped at column `x` goes to.
pub open spec fn drop_slot(x: usize) -> usize {
    if x <= 28 { 0 } else if (x - 28) / 108 < 4 { ((x - 28) / 108) as usize } else { 4 }
}

/// The hand position a card dropped at horizontal position `x` goes to.
pub fn expedition_hand_drop_index(x: usize) -> (i: usize)
    ensures
        i == drop_slot(x),
{
    if x <= 28 {
        return 0;
    }
    let i = (x - 28) / 108;
    if i < 4 {
        i
    } else {
        4
    }
}

/// The base tile under screen position `(mx, my)`, if the position is on a tile (not on the
/// gap between tiles).
pub open spec fn base_tile_under(g: Game, mx: usize, my: usize) -> Option<(i32, i32)> {
    let z = g.base.zoom_level as int;
    let tile = base_tile(z);
    let step = tile + base_gap(z);
    let ext = base_extent(g.base.size as int, z);
    let lx = (mx as i32) as int - origin_axis(ext, BASE_VIEWPORT_WIDTH as int, g.base.camera_x as int);
    let ly = (my as i32) as int - origin_axis(ext, BASE_VIEWPORT_HEIGHT as int, g.base.camera_y as int);
    if lx < 0 || ly < 0 {
        None
    } else if lx / step >= g.base.size || ly / step >= g.base.size {
        None
    } else if lx % step >= tile || ly % step >= tile {
        None
    } else {
        Some(((lx / step) as i32, (ly / step) as i32))
    }
}

/// The base tile under a screen position, if any.
pub fn screen_to_base_tile(game: &Game, mouse_x: usize, mouse_y: usize) -> (r: Option<(i32, i32)>)
    requires
        game.wf(),
        game.base.camera_x > i32::MIN,
        game.base.camera_y > i32::MIN,
    ensures
        r == base_tile_under(*game, mouse_x, mouse_y),
{
    let tile_size = game.base_tile_size() as i64;
    let step = (game.base_tile_size() + game.base_tile_gap()) as i64;
    let (origin_x, origin_y) = game.base_origin(BASE_VIEWPORT_WIDTH, BASE_VIEWPORT_HEIGHT);
    let local_x = (mouse_x as i32) as i64 - origin_x as i64;
    let local_y = (mouse_y as i32) as i64 - origin_y as i64;
    if local_x < 0 || local_y < 0 {
        return None;
    }
    let tile_x = local_x / step;
    let tile_y = local_y / step;
    if tile_x >= game.base.size as i64 || tile_y >= game.base.size as i64 {
        return None;
    }
    if local_x % step >= tile_size || local_y % step >= tile_size {
        return None;
    }
    Some((tile_x as i32, tile_y as i32))
}

/// The tile of the expedition map under screen position `(x, y)`, if the position is on
/// the map's part of the window and on a tile.
pub open spec fn tile_under(e: ExpeditionState, x: usize, y: usize) -> Option<(i32, i32)> {
    if y >= EXPEDITION_VIEWPORT_HEIGHT {
        None
    } else {
        let tile = 12 + e.zoom_level * 4;
        let lx = (x as i32) as int - origin_axis(e.content_size_spec().0, WIDTH as int, e.camera_x as int);
        let ly = (y as i32) as int - origin_axis(e.content_size_spec().1, EXPEDITION_VIEWPORT_HEIGHT as int, e.camera_y as int);
        if lx < 0 || ly < 0 {
            None
        } else if lx / tile < e.map.width && ly / tile < e.map.height {
            Some(((lx / tile) as i32, (ly / tile) as i32))
        } else {
            None
        }
    }
}

/// The tile of the current expedition's map under a screen position, if any.
pub open spec fn map_tile_under(g: Game, x: usize, y: usize) -> Option<(i32, i32)> {
    match g.expedition {
        None => None,
        Some(e) => tile_under(e, x, y),
    }
}

/// The tile of an expedition's map under a screen position, if any.
pub fn expedition_tile_at(e: &ExpeditionState, x: usize, y: usize) -> (r: Option<(i32, i32)>)
    requires
        e.view_fits(),
        e.zoom_level <= 5,
        e.camera_x > i32::MIN,
        e.camera_y > i32::MIN,
    ensures
        r == tile_under(*e, x, y),
        r matches Some(t) ==> 0 <= t.0 < e.map.width && 0 <= t.1 < e.map.height,
{
    if y >= EXPEDITION_VIEWPORT_HEIGHT {
        return None;
    }
    let tile_size = e.tile_size() as i64;
    let (origin_x, origin_y) = e.origin(WIDTH, EXPEDITION_VIEWPORT_HEIGHT);
    let local_x = (x as i32) as i64 - origin_x as i64;
    let local_y = (y as i32) as i64 - origin_y as i64;
    if local_x < 0 || local_y < 0 {
        return None;
    }
    let tile_x = local_x / tile_size;
    let tile_y = local_y / tile_size;
    if tile_x < e.map.width as i64 && tile_y < e.map.height as i64 {
        Some((tile_x as i32, tile_y as i32))
    } else {
        None
    }
}

/// The expedition map tile under a screen position, if any.
pub fn expedition_map_tile_at(game: &Game, x: usize, y: usize) -> (r: Option<(i32, i32)>)
    requires
        game.wf(),
        game.expedition matches Some(e) ==> e.camera_x > i32::MIN && e.camera_y > i32::MIN,
    ensures
        r == map_tile_under(*game, x, y),
{
    match &game.expedition {
        None => None,
        Some(e) => expedition_tile_at(e, x, y),
    }
}

/// Mouse state of the current frame, derived from the raw window state.
#[derive(Debug, Clone, Copy, PartialEq, Eq, Structural)]
pub struct InputState {
    pub mouse_x: usize,
    pub mouse_y: usize,
    /// Mouse movement since the previous frame, in whole pixels.
    pub mouse_delta_x: i32,
    pub mouse_delta_y: i32,
    /// Direction the wheel turned this frame: positive, negative or zero.
    pub scroll_y: i32,
    pub mouse_seen: bool,
    pub left_down: bool,
    pub left_pressed: bool,
    pub left_released: bool,
    pub right_down: bool,
    pub right_pressed: bool,
    pub dragged_expedition_card: Option<usize>,
}

/// Keyboard state of the current frame.
#[derive(Debug, Clone, Copy, PartialEq, Eq, Structural)]
pub struct KeyState {
    pub a_down: bool,
    pub d_down: bool,
    pub w_down: bool,
    pub s_down: bool,
    pub backspace_pressed: bool,
    /// Escape was pressed this frame.
    pub escape_pressed: bool,
    /// The digit key pressed this frame, if any.
    pub digit: Option<i32>,
}

/// Work the input handlers leave to the caller, which owns the save file.
#[derive(Debug, Clone, Copy, PartialEq, Eq, Structural)]
pub enum InputAction {
    Nothing,
    /// Write the game to the save file and report "Saved game.".
    Save,
    /// Replace the game by the saved one.
    Load,
    /// Replace the game by the saved one, if a save exists.
    LoadIfSaved,
}

/// `a - b` kept within `i32`.
pub open spec fn sat_diff(a: int, b: int) -> int {
    if a - b < i32::MIN { i32::MIN as int } else if a - b > i32::MAX { i32::MAX as int } else { a - b }
}

impl InputState {
    pub open spec fn fresh(&self) -> bool {
        &&& self.mouse_x == 0
        &&& self.mouse_y == 0
        &&& self.mouse_delta_x == 0
        &&& self.mouse_delta_y == 0
        &&& self.scroll_y == 0
        &&& !self.mouse_seen
        &&& !self.left_down
        &&& !self.left_pressed
        &&& !self.left_released
        &&& !self.right_down
        &&& !self.right_pressed
        &&& self.dragged_expedition_card.is_none()
    }

    /// The state before the first frame.
    pub fn new() -> (s: InputState)
        ensures
            s.fresh(),
    {
        InputState {
            mouse_x: 0,
            mouse_y: 0,
            mouse_delta_x: 0,
            mouse_delta_y: 0,
            scroll_y: 0,
            mouse_seen: false,
            left_down: false,
            left_pressed: false,
            left_released: false,
            right_down: false,
            right_pressed: false,
            dragged_expedition_card: None,
        }
    }

    /// Takes the raw window state of a new frame: button edges are found by comparing with
    /// the previous frame, and mouse movement is measured from the previous position once a
    /// position has been seen.
    pub fn update(&mut self, left_down: bool, right_down: bool, mouse: Option<(usize, usize)>, scroll_y: i32)
        ensures
            final(self).left_down == left_down,
            final(self).left_pressed == (left_down && !old(self).left_down),
            final(self).left_released == (!left_down && old(self).left_down),
            final(self).right_down == right_down,
            final(self).right_pressed == (right_down && !old(self).right_down),
            final(self).scroll_y == scroll_y,
            final(self).dragged_expedition_card == old(self).dragged_expedition_card,
            mouse is None ==> final(self).mouse_delta_x == 0 && final(self).mouse_delta_y == 0
                && final(self).mouse_x == old(self).mouse_x && final(self).mouse_y == old(self).mouse_y
                && final(self).mouse_seen == old(self).mouse_seen,
            mouse matches Some(p) ==> final(self).mouse_x == p.0 && final(self).mouse_y == p.1 && final(self).mouse_seen
                && final(self).mouse_delta_x == (if old(self).mouse_seen { sat_diff(p.0 as int, old(self).mouse_x as int) } else { 0 })
                && final(self).mouse_delta_y == (if old(self).mouse_seen { sat_diff(p.1 as int, old(self).mouse_y as int) } else { 0 }),
    {
        let previous_left = self.left_down;
        let previous_right = self.right_down;
        self.left_down = left_down;
        self.left_pressed = left_down && !previous_left;
        self.left_released = !left_down && previous_left;
        self.right_down = right_down;
        self.right_pressed = right_down && !previous_right;
        self.mouse_delta_x = 0;
        self.mouse_delta_y = 0;
        if let Some((x, y)) = mouse {
            if self.mouse_seen {
                self.mouse_delta_x = diff_i32(x, self.mouse_x);
                self.mouse_delta_y = diff_i32(y, self.mouse_y);
            } else {
                self.mouse_seen = true;
            }
            self.mouse_x = x;
            self.mouse_y = y;
        }
        self.scroll_y = scroll_y;
    }
}

fn diff_i32(a: usize, b: usize) -> (r: i32)
    ensures
        r == sat_diff(a as int, b as int),
{
    if a >= b {
        let d = a - b;
        if d > 2147483647usize { 2147483647 } else { d as i32 }
    } else {
        let d = b - a;
        if d > 2147483648usize { -2147483648 } else if d == 2147483648usize { -2147483648 } else { -(d as i32) }
    }
}

/// The keyboard pan of one frame: 10 pixels per held direction key.
pub open spec fn key_pan(keys: KeyState) -> (int, int) {
    (
        (if keys.d_down { 10int } else { 0 }) - (if keys.a_down { 10int } else { 0 }),
        (if keys.s_down { 10int } else { 0 }) - (if keys.w_down { 10int } else { 0 }),
    )
}

/// The camera movement of one frame: the mouse drag (right button held) against its
/// direction, plus the keyboard pan.
pub open spec fn frame_pan(input: InputState, keys: KeyState) -> (int, int) {
    let drag = if input.right_down { (-(input.mouse_delta_x as int), -(input.mouse_delta_y as int)) } else { (0int, 0int) };
    (drag.0 + key_pan(keys).0, drag.1 + key_pan(keys).1)
}

fn pan_amounts(input: &InputState, keys: &KeyState) -> (r: (i32, i32))
    ensures
        r.0 == crate::game::clamp(frame_pan(*input, *keys).0, i32::MIN as int, i32::MAX as int),
        r.1 == crate::game::clamp(frame_pan(*input, *keys).1, i32::MIN as int, i32::MAX as int),
        (r.0 == 0 && r.1 == 0) == (frame_pan(*input, *keys).0 == 0 && frame_pan(*input, *keys).1 == 0),
{
    let mut pan_x: i64 = 0;
    let mut pan_y: i64 = 0;
    if input.right_down {
        pan_x = pan_x - input.mouse_delta_x as i64;
        pan_y = pan_y - input.mouse_delta_y as i64;
    }
    if keys.a_down {
        pan_x = pan_x - 10;
    }
    if keys.d_down {
        pan_x = pan_x + 10;
    }
    if keys.w_down {
        pan_y = pan_y - 10;
    }
    if keys.s_down {
        pan_y = pan_y + 10;
    }
    (clamp_to_i32(pan_x), clamp_to_i32(pan_y))
}

fn clamp_to_i32(v: i64) -> (r: i32)
    ensures
        r == crate::game::clamp(v as int, i32::MIN as int, i32::MAX as int),
{
    if v < i32::MIN as i64 {
        i32::MIN
    } else if v > i32::MAX as i64 {
        i32::MAX
    } else {
        v as i32
    }
}

/// The conditions under which a frame of input can be handled without any counter
/// leaving its range: a well-formed game with room for the cargo, the research, a further
/// small storehouse, discard amounts off the `i32` limits (so a click can step them), a
/// prepared deck whose food cost fits in `i32`, cameras away from the
/// `i32` minimum, an expedition map whose largest zoom fits in `usize`, and hand cards
/// whose effects fit.
pub open spec fn input_ready(g: Game) -> bool {
    &&& g.wf()
    &&& total_of(g.resources) < i32::MAX
    &&& cargo_fits(g)
    &&& g.technologies.len() >= 1
    &&& g.base.size <= MAX_BASE_SIZE - 8
    &&& g.base.storage_capacity <= i32::MAX - 10
    &&& g.base.camera_x > i32::MIN
    &&& g.base.camera_y > i32::MIN
    &&& g.prep_deck.len() <= 8_000_000
    &&& forall|i: int| 0 <= i < 3 ==> i32::MIN < #[trigger] g.storage_discard_inputs@[i] < i32::MAX
    &&& (g.expedition matches Some(e) ==> expedition_ready(e))
}

pub open spec fn expedition_ready(e: ExpeditionState) -> bool {
    &&& e.camera_x > i32::MIN
    &&& e.camera_y > i32::MIN
    &&& e.map.width * 32 <= usize::MAX
    &&& e.map.height * 32 <= usize::MAX
    &&& forall|j: int| 0 <= j < e.hand.len() ==> card_fits(e, #[trigger] e.hand@[j])
}

fn fits_sum(a: i32, b: i32, c: i32) -> (r: bool)
    ensures
        r == fits_i32(a + b + c),
{
    let t = a as i64 + b as i64 + c as i64;
    t >= i32::MIN as i64 && t <= i32::MAX as i64
}

fn card_fits_exec(e: &ExpeditionState, card: &crate::card::Card) -> (r: bool)
    ensures
        r == card_fits(*e, *card),
{
    match card.kind {
        crate::card::CardKind::Gather => e.cargo.wood <= i32::MAX - 25 && e.cargo.stone <= i32::MAX - 10
            && e.cargo.food <= i32::MAX - 15,
        crate::card::CardKind::Search => e.cargo.food < i32::MAX,
        crate::card::CardKind::Attack => {
            let v = e.enemy_hp as i64 - card.value as i64;
            v >= i32::MIN as i64 && v <= i32::MAX as i64
        },
        crate::card::CardKind::Defend => {
            let v = e.block as i64 + card.value as i64;
            v >= i32::MIN as i64 && v <= i32::MAX as i64
        },
        _ => true,
    }
}

fn expedition_checks(e: &ExpeditionState) -> (r: bool)
    ensures
        r == (e.wf() && e.zoom_level <= 5 && e.view_fits() && nonneg(e.cargo) && expedition_ready(*e)),
{
    let w = e.map.width;
    let h = e.map.height;
    if w < 0 || h < 0 {
        return false;
    }
    proof {
        assert((w as int) * (h as int) <= 2147483647 * 2147483647) by (nonlinear_arith)
            requires 0 <= w <= 2147483647, 0 <= h <= 2147483647;
    }
    if (w as i64) * (h as i64) > i32::MAX as i64 {
        return false;
    }
    if e.map.tiles.len() != ((w as i64) * (h as i64)) as usize {
        return false;
    }
    if e.player_x < 0 || e.player_y < 0 || e.player_x >= w || e.player_y >= h {
        return false;
    }
    if e.zoom_level > 5 {
        return false;
    }
    if (w as usize).checked_mul(32).is_none() || (h as usize).checked_mul(32).is_none() {
        return false;
    }
    let t = 12 + e.zoom_level * 4;
    proof {
        assert((w as int) * t <= (w as int) * 32) by (nonlinear_arith) requires w >= 0, t <= 32;
        assert((h as int) * t <= (h as int) * 32) by (nonlinear_arith) requires h >= 0, t <= 32;
    }
    if e.cargo.wood < 0 || e.cargo.stone < 0 || e.cargo.food < 0 {
        return false;
    }
    if e.camera_x == i32::MIN || e.camera_y == i32::MIN {
        return false;
    }
    let mut j: usize = 0;
    while j < e.hand.len()
        invariant
            j <= e.hand.len(),
            forall|k: int| 0 <= k < j ==> card_fits(*e, #[trigger] e.hand@[k]),
        decreases e.hand.len() - j,
    {
        if !card_fits_exec(e, &e.hand[j]) {
            return false;
        }
        j = j + 1;
    }
    true
}

fn buildings_ok(bs: &Vec<crate::data::Building>, size: i32) -> (r: bool)
    ensures
        r == buildings_placed(bs@, size as int),
{
    let mut i: usize = 0;
    while i < bs.len()
        invariant
            i <= bs.len(),
            forall|k: int| 0 <= k < i ==> 0 <= #[trigger] bs@[k].x < size && 0 <= bs@[k].y < size,
            forall|a: int, b: int| 0 <= a < b < i ==> !(#[trigger] bs@[a].x == #[trigger] bs@[b].x && bs@[a].y == bs@[b].y),
        decreases bs.len() - i,
    {
        if bs[i].x < 0 || bs[i].x >= size || bs[i].y < 0 || bs[i].y >= size {
            return false;
        }
        let mut j: usize = 0;
        while j < i
            invariant
                i < bs.len(),
                j <= i,
                forall|a: int| 0 <= a < j ==> !(#[trigger] bs@[a].x == bs@[i as int].x && bs@[a].y == bs@[i as int].y),
            decreases i - j,
        {
            if bs[j].x == bs[i].x && bs[j].y == bs[i].y {
                return false;
            }
            j = j + 1;
        }
        i = i + 1;
    }
    true
}

/// Whether an expedition keeps the conditions of a well-formed game.
fn expedition_wf_exec(e: &ExpeditionState) -> (r: bool)
    ensures
        r == (e.wf() && e.zoom_level <= 5 && e.view_fits() && nonneg(e.cargo)),
{
    let w = e.map.width;
    let h = e.map.height;
    if w < 0 || h < 0 || e.zoom_level > 5 {
        return false;
    }
    proof {
        assert((w as int) * (h as int) <= 2147483647 * 2147483647) by (nonlinear_arith)
            requires 0 <= w <= 2147483647, 0 <= h <= 2147483647;
    }
    if (w as i64) * (h as i64) > i32::MAX as i64 {
        return false;
    }
    if e.map.tiles.len() != ((w as i64) * (h as i64)) as usize {
        return false;
    }
    if e.player_x < 0 || e.player_y < 0 || e.player_x >= w || e.player_y >= h {
        return false;
    }
    let t = (12 + e.zoom_level * 4) as u64;
    proof {
        assert((w as int) * (t as int) <= 2147483647 * 32) by (nonlinear_arith) requires 0 <= w <= 2147483647, t <= 32;
        assert((h as int) * (t as int) <= 2147483647 * 32) by (nonlinear_arith) requires 0 <= h <= 2147483647, t <= 32;
    }
    if (w as u64) * t > usize::MAX as u64 || (h as u64) * t > usize::MAX as u64 {
        return false;
    }
    e.cargo.wood >= 0 && e.cargo.stone >= 0 && e.cargo.food >= 0
}

/// Whether a game keeps the conditions of `Game::wf`.
pub fn is_well_formed(g: &Game) -> (r: bool)
    ensures
        r == g.wf(),
{
    if g.base.zoom_level > 4 || g.base.size < 0 || g.base.size > MAX_BASE_SIZE {
        return false;
    }
    if !buildings_ok(&g.base.buildings, g.base.size) {
        return false;
    }
    if let Some(i) = g.focused_storage_input {
        if i >= 3 {
            return false;
        }
    }
    if let Some(i) = g.pending_storage_discard {
        if i >= 3 {
            return false;
        }
    }
    let r = &g.resources;
    if !fits_sum(r.wood, r.stone, r.food) || r.wood < 0 || r.stone < 0 || r.food < 0 {
        return false;
    }
    match &g.expedition {
        Some(e) => expedition_wf_exec(e),
        None => true,
    }
}

/// Whether a game can be drawn (see `drawable`).
pub fn is_drawable(g: &Game) -> (r: bool)
    ensures
        r == crate::screens::drawable(*g),
{
    if !is_well_formed(g) {
        return false;
    }
    if g.base.camera_x < 0 || g.base.camera_x > 2_100_000_000 || g.base.camera_y < 0 || g.base.camera_y > 2_100_000_000 {
        return false;
    }
    if g.prep_deck.len() > 8_000_000 {
        return false;
    }
    match &g.expedition {
        Some(e) => {
            let (w, h) = e.content_size();
            e.camera_x >= 0 && e.camera_x <= 2_100_000_000 && e.camera_y >= 0 && e.camera_y <= 2_100_000_000
                && w <= 2_100_000_000 && h <= 2_100_000_000 && e.hand.len() <= 1_000_000
        },
        None => true,
    }
}

/// Whether a frame of input can be handled (see `input_ready`).
pub fn is_input_ready(g: &Game) -> (r: bool)
    ensures
        r == input_ready(*g),
{
    if g.base.zoom_level > 4 || g.base.size < 0 || g.base.size > MAX_BASE_SIZE - 8 {
        return false;
    }
    if !buildings_ok(&g.base.buildings, g.base.size) {
        return false;
    }
    if let Some(i) = g.focused_storage_input {
        if i >= 3 {
            return false;
        }
    }
    if let Some(i) = g.pending_storage_discard {
        if i >= 3 {
            return false;
        }
    }
    let r = &g.resources;
    if !fits_sum(r.wood, r.stone, r.food) || r.wood < 0 || r.stone < 0 || r.food < 0
        || r.wood as i64 + r.stone as i64 + r.food as i64 == i32::MAX as i64 {
        return false;
    }
    if g.technologies.len() < 1 || g.base.storage_capacity > i32::MAX - 10 {
        return false;
    }
    if g.base.camera_x == i32::MIN || g.base.camera_y == i32::MIN || g.prep_deck.len() > 8_000_000 {
        return false;
    }
    let mut i: usize = 0;
    while i < 3
        invariant
            i <= 3,
            forall|k: int| 0 <= k < i ==> i32::MIN < #[trigger] g.storage_discard_inputs@[k] < i32::MAX,
        decreases 3 - i,
    {
        let v = g.storage_discard_inputs[i];
        if v == i32::MIN || v == i32::MAX {
            return false;
        }
        i = i + 1;
    }
    if let Some(e) = &g.expedition {
        if !expedition_checks(e) {
            return false;
        }
        let c = &e.cargo;
        if c.wood as i64 + r.wood as i64 > i32::MAX as i64 || c.stone as i64 + r.stone as i64 > i32::MAX as i64
            || c.food as i64 + r.food as i64 > i32::MAX as i64 {
            return false;
        }
        let total = r.wood as i64 + r.stone as i64 + r.food as i64 + c.wood as i64 + c.stone as i64 + c.food as i64;
        if total > i32::MAX as i64 {
            return false;
        }
    }
    true
}

/// Picks a building for placement when it is affordable; otherwise only says so.
pub fn select_building_if_affordable(game: &mut Game, kind: BuildingKind)
    ensures
        building_selected(*old(game), *final(game), kind),
{
    if game.resources.can_afford(&crate::game::building_cost(kind)) {
        game.select_building(kind);
    } else {
        game.set_message(String::from_str("Not enough resources."));
    }
}

/// What a frame of input on the main menu makes of game `g`, and what it asks of the
/// caller: "new game" starts the loading screen, "load" asks for the save, "quit" quits.
pub open spec fn menu_frame(input: InputState, g: Game, f: Game, action: InputAction) -> bool {
    &&& !input.left_pressed ==> action == InputAction::Nothing && f == g
    &&& input.left_pressed && in_rect(input.mouse_x as int, input.mouse_y as int, 500, 324, 280, 54)
        ==> action == InputAction::Nothing && f.message@ == "Preparing base..."@ && f
        == (Game {
        screen: Screen::TransitionToBase,
        transition_timer: 0,
        message: f.message,
        ..g
    })
    &&& input.left_pressed && !in_rect(input.mouse_x as int, input.mouse_y as int, 500, 324, 280, 54)
        && in_rect(input.mouse_x as int, input.mouse_y as int, 500, 394, 280, 54) ==> action == InputAction::Load
        && f == g
    &&& input.left_pressed && !in_rect(input.mouse_x as int, input.mouse_y as int, 500, 324, 280, 54)
        && !in_rect(input.mouse_x as int, input.mouse_y as int, 500, 394, 280, 54) ==> action == InputAction::Nothing
        && f == (Game {
        should_quit: g.should_quit || in_rect(input.mouse_x as int, input.mouse_y as int, 500, 464, 280, 54),
        ..g
    })
}

/// What a frame of input on the game-over screen makes of game `g`, and what it asks of
/// the caller: load the save, restart a campaign, or go back to the main menu.
pub open spec fn game_over_frame(input: InputState, g: Game, f: Game, action: InputAction) -> bool {
    let (x, y) = (input.mouse_x as int, input.mouse_y as int);
    let on_load = in_rect(x, y, 418, 388, 132, 44);
    let on_restart = in_rect(x, y, 574, 388, 132, 44);
    let on_menu = in_rect(x, y, 730, 388, 132, 44);
    &&& !input.left_pressed ==> action == InputAction::Nothing && f == g
    &&& input.left_pressed && on_load ==> action == InputAction::LoadIfSaved && f == g
    &&& input.left_pressed && !on_load && on_restart ==> action == InputAction::Nothing
        && f.is_fresh_campaign() && f.screen == Screen::Base
        && f.message@ == "New campaign started. B build, T research, E explore."@
    &&& input.left_pressed && !on_load && !on_restart && on_menu ==> action == InputAction::Nothing
        && f.message@ == "Select a menu option."@ && f == (Game {
        screen: Screen::MainMenu,
        message: f.message,
        ..g
    })
    &&& input.left_pressed && !on_load && !on_restart && !on_menu ==> action == InputAction::Nothing
        && f == g
}

/// What a frame of input on the base screen makes of game `g`, and what it asks of the
/// caller: an open dialog takes the frame (storage first, then character, crafting, the
/// build menu and the preparation); without one, the view moves, a selected building is
/// placed or cancelled, a quit is confirmed or cancelled, or a side-panel button acts.
pub open spec fn base_frame(input: InputState, keys: KeyState, g: Game, f: Game, action: InputAction) -> bool {
    &&& f.expedition == g.expedition || f.expedition is None
    &&& action == base_action(input, g)
    &&& base_panel_click(input, g) ==> (side_button(input.mouse_x as int, input.mouse_y as int) matches Some(k)
        ==> exists|v: Game| base_view_moved(input, keys, g, v) && #[trigger] pressed(k, v, f))
    &&& g.show_storage_dialog ==> f.base == g.base && f.screen == g.screen
    &&& !g.show_storage_dialog && g.show_character_dialog ==> if input.left_pressed && in_rect(
        input.mouse_x as int,
        input.mouse_y as int,
        448,
        444,
        104,
        40,
    ) {
        f.message@ == "Character closed."@ && f == (Game {
            show_character_dialog: false,
            message: f.message,
            ..g
        })
    } else {
        f == g
    }
    &&& !g.show_storage_dialog && !g.show_character_dialog && g.show_crafting_dialog ==> if input.left_pressed
        && in_rect(input.mouse_x as int, input.mouse_y as int, 448, 424, 104, 40) {
        f.message@ == "Crafting closed."@ && f == (Game {
            show_crafting_dialog: false,
            message: f.message,
            ..g
        })
    } else {
        f == g
    }
    &&& !g.show_storage_dialog && !g.show_character_dialog && !g.show_crafting_dialog
        && g.show_build_menu && input.right_pressed ==> f.message@ == "Build menu closed."@
        && f == (Game { show_build_menu: false, message: f.message, ..g })
    &&& !g.show_storage_dialog && !g.show_character_dialog && !g.show_crafting_dialog
        && !g.show_build_menu && g.show_expedition_prep && input.right_pressed ==> f.message@
        == "Expedition preparation cancelled."@ && f.prep_deck.len() == 0 && f == (Game {
        show_expedition_prep: false,
        prep_deck: f.prep_deck,
        message: f.message,
        ..g
    })
    &&& !base_dialog_open(g) && input.right_pressed && g.selected_building is Some && !(input.left_pressed
        && input.mouse_x < BASE_VIEWPORT_WIDTH && input.mouse_y < BASE_VIEWPORT_HEIGHT) ==> f.message@
        == "Building placement cancelled."@ && f.selected_building is None
    &&& !base_dialog_open(g) && !input.left_pressed && !input.right_pressed && input.scroll_y == 0
        && frame_pan(input, keys) == (0int, 0int) ==> f == g
    &&& g.show_storage_dialog ==> storage_frame(input, keys, g, f)
    &&& !g.show_storage_dialog && !g.show_character_dialog && !g.show_crafting_dialog
        && g.show_build_menu && input.left_pressed && !input.right_pressed ==> build_menu_click(
        g,
        f,
        input.mouse_x as int,
        input.mouse_y as int,
    )
    &&& !g.show_storage_dialog && !g.show_character_dialog && !g.show_crafting_dialog
        && !g.show_build_menu && g.show_expedition_prep && input.left_pressed && !input.right_pressed
        ==> prep_click(g, f, input.mouse_x as int, input.mouse_y as int)
    &&& !base_dialog_open(g) && input.scroll_y == 0 && frame_pan(input, keys) == (0int, 0int) ==> base_click(
        input,
        g,
        f,
    )
    &&& !base_dialog_open(g) ==> exists|v: Game|
        base_viewed(input, keys, g, v) && base_view_moved(input, keys, g, v) && #[trigger] base_acted(input, v, f)
}

/// Game `v` is what the view part of a base frame makes of `g`: the wheel step, then the
/// pan of the frame.
pub open spec fn base_viewed(input: InputState, keys: KeyState, g: Game, v: Game) -> bool {
    exists|m: Game| base_wheel_zoomed(input.scroll_y, g, m) && #[trigger] base_pan_moved(
        frame_pan_clamped(input, keys).0,
        frame_pan_clamped(input, keys).1,
        m,
        v,
    )
}

/// What the buttons of a base frame make of game `v` (whose view has moved) with no dialog
/// open: nothing without a press; the right button cancels a placement; a left click
/// places, answers a quit confirmation or presses a side-panel button.
pub open spec fn base_acted(input: InputState, v: Game, f: Game) -> bool {
    &&& base_click(input, v, f)
    &&& !input.left_pressed && !input.right_pressed ==> f == v
    &&& input.right_pressed && v.selected_building is Some && !(input.left_pressed && input.mouse_x
        < BASE_VIEWPORT_WIDTH && input.mouse_y < BASE_VIEWPORT_HEIGHT) ==> f.message@
        == "Building placement cancelled."@ && f == (Game { selected_building: None, message: f.message, ..v })
    &&& base_panel_click(input, v) ==> match side_button(input.mouse_x as int, input.mouse_y as int) {
        Some(k) => pressed(k, v, f),
        None => f == v,
    }
}

/// What the clicks and releases of an expedition frame make of game `g` once its view has
/// moved: a map tile chosen as a destination, a hand card picked up, or a dragged card
/// dropped on the hand (reordering it) or on the map (playing it).
pub open spec fn expedition_act(input: InputState, g: Game, f: Game, after: InputState) -> bool {
    let (mx, my) = (input.mouse_x, input.mouse_y);
    let on_buttons = in_rect(mx as int, my as int, 1148, 616, 104, 40) || in_rect(mx as int, my as int, 1148, 662, 104, 40);
    &&& input.left_pressed && !on_buttons ==> (map_tile_under(g, mx, my) matches Some(t) ==> move_chosen(
        g,
        f,
        t.0,
        t.1,
    ))
    &&& input.left_pressed && !on_buttons && map_tile_under(g, mx, my) is None && !input.left_released
        ==> ((g.expedition matches Some(e) && e.pending_move_card is None) ==> (first_hit(
        5,
        hand_hit(mx as int, my as int),
    ) matches Some(k) ==> after.dragged_expedition_card == Some(k as usize)))
    &&& !input.left_pressed && (!input.left_released || input.dragged_expedition_card is None) ==> f == g
    &&& !input.left_pressed && input.left_released ==> after.dragged_expedition_card is None && (
    input.dragged_expedition_card matches Some(i) ==> if my >= 588 {
        hand_reordered(g, f, i, drop_slot(mx))
    } else {
        hand_card_played(g, f, i)
    })
}

/// What a frame of input on the expedition screen makes of game `g` and of the input
/// state (which keeps the dragged card) `input`, which becomes `after`.
pub open spec fn expedition_frame(input: InputState, keys: KeyState, g: Game, f: Game, after: InputState) -> bool {
    &&& g.expedition matches Some(e) ==> (f.expedition matches Some(h) ==> h.carried().to_multiset()
        == e.carried().to_multiset())
    &&& after.mouse_x == input.mouse_x && after.mouse_y == input.mouse_y
    &&& g.show_expedition_bag ==> after == input && if input.left_pressed && in_rect(
        input.mouse_x as int,
        input.mouse_y as int,
        588,
        324,
        104,
        40,
    ) {
        f.message@ == "Expedition bag closed."@ && f == (Game {
            show_expedition_bag: false,
            message: f.message,
            ..g
        })
    } else {
        f == g
    }
    &&& !g.show_expedition_bag && !input.left_pressed && !input.left_released ==> after == input
    &&& !g.show_expedition_bag && !input.left_pressed && !input.left_released && input.scroll_y == 0
        && frame_pan(input, keys) == (0int, 0int) ==> f == g
    &&& !g.show_expedition_bag && input.left_pressed && in_rect(
        input.mouse_x as int,
        input.mouse_y as int,
        1148,
        616,
        104,
        40,
    ) ==> after == input && f.show_expedition_bag && f.message@
        == "Expedition bag opened."@
    &&& !g.show_expedition_bag && input.left_pressed && in_rect(
        input.mouse_x as int,
        input.mouse_y as int,
        1148,
        662,
        104,
        40,
    ) ==> after == input && evacuated(g, f)
    &&& !g.show_expedition_bag && input.scroll_y == 0 && frame_pan(input, keys) == (0int, 0int) ==> expedition_act(input, g, f, after)
    &&& !g.show_expedition_bag ==> exists|v: Game|
        expedition_viewed(input, keys, g, v) && view_changed(g, v) && #[trigger] expedition_act(input, v, f, after)
}

/// Game `v` is what the view part of an expedition frame makes of `g`: the wheel step,
/// then the pan of the frame.
pub open spec fn expedition_viewed(input: InputState, keys: KeyState, g: Game, v: Game) -> bool {
    exists|m: Game| expedition_wheel_zoomed(input.scroll_y, g, m) && #[trigger] expedition_pan_moved(
        frame_pan_clamped(input, keys).0,
        frame_pan_clamped(input, keys).1,
        m,
        v,
    )
}

/// Clicks on the main menu: new campaign, load, or quit.
pub fn handle_menu_input(input: &InputState, game: &mut Game) -> (action: InputAction)
    ensures
        menu_frame(*input, *old(game), *final(game), action),
{
    if !input.left_pressed {
        return InputAction::Nothing;
    }
    let panel_x = WIDTH / 2 - 230;
    let panel_y = HEIGHT / 2 - 190;
    if point_in_rect(input.mouse_x, input.mouse_y, panel_x + 90, panel_y + 154, 280, 54) {
        game.begin_new_campaign_transition();
    } else if point_in_rect(input.mouse_x, input.mouse_y, panel_x + 90, panel_y + 224, 280, 54) {
        return InputAction::Load;
    } else if point_in_rect(input.mouse_x, input.mouse_y, panel_x + 90, panel_y + 294, 280, 54) {
        game.should_quit = true;
    }
    InputAction::Nothing
}

/// Clicks on the game-over screen: load the save, restart, or back to the main menu.
pub fn handle_game_over_input(input: &InputState, game: &mut Game) -> (action: InputAction)
    ensures
        final(game).wf() || !old(game).wf(),
        game_over_frame(*input, *old(game), *final(game), action),
{
    if !input.left_pressed {
        return InputAction::Nothing;
    }
    let button_y = HEIGHT / 2 - 150 + 178;
    if point_in_rect(input.mouse_x, input.mouse_y, WIDTH / 2 - 222, button_y, 132, 44) {
        return InputAction::LoadIfSaved;
    } else if point_in_rect(input.mouse_x, input.mouse_y, WIDTH / 2 - 66, button_y, 132, 44) {
        game.new_campaign();
    } else if point_in_rect(input.mouse_x, input.mouse_y, WIDTH / 2 + 90, button_y, 132, 44) {
        game.screen = Screen::MainMenu;
        game.set_message(String::from_str("Select a menu option."));
    }
    InputAction::Nothing
}

/// The materials shown as rows of the storage dialog, in order: those discovered or held.
pub open spec fn storage_rows(g: Game) -> Seq<usize> {
    seq![0usize, 1, 2].filter(|i: usize| g.discovered_resources@[i as int] || material(g.resources, i as int) > 0)
}

/// The control of storage row `r` under `(x, y)`: 0 for minus, 1 for the amount field, 2 for
/// plus, 3 for the discard button.
pub open spec fn row_control(x: int, y: int, r: int) -> Option<int> {
    let row_y = 250 + r * 56;
    if in_rect(x, y, 398, row_y + 2, 26, 32) {
        Some(0)
    } else if in_rect(x, y, 430, row_y + 2, 46, 32) {
        Some(1)
    } else if in_rect(x, y, 482, row_y + 2, 26, 32) {
        Some(2)
    } else if in_rect(x, y, 554, row_y, 88, 36) {
        Some(3)
    } else {
        None
    }
}

/// The first of the first `n` storage rows with a control under `(x, y)`: the row's
/// material and the control.
pub open spec fn storage_control(x: int, y: int, rows: Seq<usize>, n: int) -> Option<(int, int)>
    decreases n,
{
    if n <= 0 {
        None
    } else {
        match storage_control(x, y, rows, n - 1) {
            Some(c) => Some(c),
            None => match row_control(x, y, n - 1) {
                Some(c) => Some((rows[n - 1] as int, c)),
                None => None,
            },
        }
    }
}

/// What using control `c` of the row of material `i` makes of the game: minus and plus
/// change the amount by one (kept between zero and the stock) and focus it, the field
/// focuses it, and the discard button asks to confirm a positive amount the stock covers.
pub open spec fn control_effect(g: Game, f: Game, i: int, c: int) -> bool {
    let typed = g.storage_discard_inputs@[i];
    if c == 0 || c == 2 {
        &&& f == (Game {
            storage_discard_inputs: f.storage_discard_inputs,
            focused_storage_input: Some(i as usize),
            pending_storage_discard: None,
            ..g
        })
        &&& f.storage_discard_inputs@ == g.storage_discard_inputs@.update(
            i,
            crate::game::clamp(typed + (if c == 0 { -1int } else { 1 }), 0, material(g.resources, i)) as i32,
        )
    } else if c == 1 {
        f == (Game { focused_storage_input: Some(i as usize), pending_storage_discard: None, ..g })
    } else if typed <= 0 {
        f.message@ == "Discard amount must be greater than 0."@ && f == (Game { message: f.message, ..g })
    } else if typed > material(g.resources, i) {
        f.message@ == "Not enough material to discard."@ && f == (Game { message: f.message, ..g })
    } else {
        f.message@ == "Confirm discard."@ && f == (Game {
            pending_storage_discard: Some(i as usize),
            message: f.message,
            ..g
        })
    }
}

/// Two storage rows never share a point.
proof fn lemma_rows_apart(x: int, y: int, r: int, s: int)
    requires
        0 <= r < s,
        row_control(x, y, r) is Some,
    ensures
        row_control(x, y, s) is None,
{
}

/// A control found among the first `n` rows belongs to one of them.
proof fn lemma_control_row(x: int, y: int, rows: Seq<usize>, n: int) -> (r: int)
    requires
        storage_control(x, y, rows, n) is Some,
    ensures
        0 <= r < n,
        row_control(x, y, r) is Some,
    decreases n,
{
    if storage_control(x, y, rows, n - 1) is Some {
        lemma_control_row(x, y, rows, n - 1)
    } else {
        n - 1
    }
}

/// The controls of storage row `row`, which shows material `index`.
fn storage_row_click(input: &InputState, game: &mut Game, index: usize, row: usize)
    requires
        index < 3,
        row < 3,
        row_control(input.mouse_x as int, input.mouse_y as int, row as int) is Some ==> old(game).wf()
            && i32::MIN < old(game).storage_discard_inputs@[index as int] < i32::MAX,
    ensures
        match row_control(input.mouse_x as int, input.mouse_y as int, row as int) {
            None => *final(game) == *old(game),
            Some(c) => control_effect(*old(game), *final(game), index as int, c),
        },
{
    let row_x: usize = 272;
    let row_y: usize = 250 + row * 56;
    let input_x = row_x + 158;
    if point_in_rect(input.mouse_x, input.mouse_y, row_x + 126, row_y + 2, 26, 32) {
        game.adjust_storage_discard_input(index, -1);
    } else if point_in_rect(input.mouse_x, input.mouse_y, input_x, row_y + 2, 46, 32) {
        game.focus_storage_input(index);
    } else if point_in_rect(input.mouse_x, input.mouse_y, input_x + 52, row_y + 2, 26, 32) {
        game.adjust_storage_discard_input(index, 1);
    } else if point_in_rect(input.mouse_x, input.mouse_y, input_x + 124, row_y, 88, 36) {
        game.request_storage_discard(index);
    }
}

/// What a click in the storage dialog makes of game `g`: with a discard pending,
/// "confirm" discards the amount (as far as the stock goes) and any other click cancels
/// it; otherwise "close" closes the dialog, or the row control under the pointer is used.
pub open spec fn storage_click_effect(input: InputState, g: Game, f: Game) -> bool {
    let (x, y) = (input.mouse_x as int, input.mouse_y as int);
    &&& !input.left_pressed ==> f == g
    &&& input.left_pressed && in_rect(x, y, 538, 474, 84, 40) ==> (g.pending_storage_discard matches Some(i) ==> (
        f.pending_storage_discard is None && f.resources == with_material(
            g.resources,
            i as int,
            (material(g.resources, i as int) - discard_amount(material(g.resources, i as int), g.storage_discard_inputs@[i as int] as int)) as i32,
        )))
    &&& input.left_pressed && g.pending_storage_discard is Some && !in_rect(x, y, 538, 474, 84, 40) ==> f.message@
        == "Discard cancelled."@ && f == (Game { pending_storage_discard: None, message: f.message, ..g })
    &&& input.left_pressed && g.pending_storage_discard is None && in_rect(x, y, 652, 474, 96, 40) ==> f.message@
        == "Storage closed."@ && !f.show_storage_dialog
    &&& input.left_pressed && g.pending_storage_discard is None && !in_rect(x, y, 652, 474, 96, 40) ==> match storage_control(
        x,
        y,
        storage_rows(g),
        storage_rows(g).len() as int,
    ) {
        None => f == g,
        Some(hit) => control_effect(g, f, hit.0, hit.1),
    }
}

/// What a frame of input in the storage dialog makes of game `g`: a typed digit or
/// backspace edits the focused amount, and a click acts as `storage_click_effect` says.
pub open spec fn storage_frame(input: InputState, keys: KeyState, g: Game, f: Game) -> bool {
    &&& !input.left_pressed && !keys.backspace_pressed ==> (keys.digit matches Some(d) ==> digit_typed(g, f, d))
    &&& !input.left_pressed && keys.digit is None && keys.backspace_pressed ==> digit_erased(g, f)
    &&& keys.digit is None && !keys.backspace_pressed ==> storage_click_effect(input, g, f)
    &&& exists|t: Game| storage_keys_typed(keys, g, t) && #[trigger] storage_click_effect(input, t, f)
}

/// What the keys of a storage frame make of game `g`: a typed digit, then backspace, each
/// editing the focused amount; nothing without either.
pub open spec fn storage_keys_typed(keys: KeyState, g: Game, t: Game) -> bool {
    match keys.digit {
        None => if keys.backspace_pressed { digit_erased(g, t) } else { t == g },
        Some(d) => if keys.backspace_pressed {
            exists|m: Game| digit_typed(g, m, d) && #[trigger] digit_erased(m, t)
        } else {
            digit_typed(g, t, d)
        },
    }
}

/// A click in the storage dialog: with a discard pending, "confirm" carries it out and any
/// other click cancels it; otherwise "close" closes the dialog, or the row control under
/// the pointer is used.
fn storage_click(input: &InputState, game: &mut Game)
    requires
        old(game).wf(),
        total_of(old(game).resources) < i32::MAX,
        forall|i: int| 0 <= i < 3 ==> i32::MIN < #[trigger] old(game).storage_discard_inputs@[i] < i32::MAX,
    ensures
        final(game).wf(),
        final(game).screen == old(game).screen,
        final(game).base == old(game).base,
        final(game).expedition == old(game).expedition,
        final(game).prep_deck == old(game).prep_deck,
        total_of(final(game).resources) <= total_of(old(game).resources),
        storage_click_effect(*input, *old(game), *final(game)),
{
    if !input.left_pressed {
        return;
    }
    let panel_x = BASE_VIEWPORT_WIDTH / 2 - 300;
    let panel_y = BASE_VIEWPORT_HEIGHT / 2 - 190;
    if game.pending_storage_discard.is_some() {
        if point_in_rect(input.mouse_x, input.mouse_y, panel_x + 338, panel_y + 316, 84, 40) {
            game.confirm_storage_discard();
        } else {
            game.cancel_storage_discard();
        }
        return;
    }
    if point_in_rect(input.mouse_x, input.mouse_y, panel_x + 452, panel_y + 316, 96, 40) {
        game.hide_storage_dialog();
        return;
    }
    let rows = game.visible_storage_indices();
    let ghost g0 = *game;
    let ghost (x, y) = (input.mouse_x as int, input.mouse_y as int);
    let mut row: usize = 0;
    while row < rows.len()
        invariant
            row <= rows.len(),
            rows.len() <= 3,
            forall|k: int| 0 <= k < rows.len() ==> #[trigger] rows@[k] < 3,
            rows@ == storage_rows(g0),
            g0.wf(),
            forall|i: int| 0 <= i < 3 ==> i32::MIN < #[trigger] g0.storage_discard_inputs@[i] < i32::MAX,
            (x, y) == (input.mouse_x as int, input.mouse_y as int),
            storage_control(x, y, rows@, row as int) is None ==> *game == g0,
            storage_control(x, y, rows@, row as int) matches Some(hit) ==> control_effect(g0, *game, hit.0, hit.1)
                && 0 <= hit.0 < 3,
        decreases rows.len() - row,
    {
        let index = rows[row];
        proof {
            if storage_control(x, y, rows@, row as int) is Some {
                // An earlier row took the click; this one cannot.
                let r = lemma_control_row(x, y, rows@, row as int);
                lemma_rows_apart(x, y, r, row as int);
            }
        }
        storage_row_click(input, game, index, row);
        row = row + 1;
    }
}

/// A digit typed this frame into the focused discard amount keeps the amount, times ten
/// and with the digit added, within `i32`.
pub open spec fn digit_fits(g: Game, keys: KeyState) -> bool {
    keys.digit matches Some(d) ==> (g.focused_storage_input matches Some(i) ==> i < 3 ==> fits_i32(
        g.storage_discard_inputs@[i as int] * 10,
    ) && fits_i32(g.storage_discard_inputs@[i as int] * 10 + d))
}

/// Whether typing this frame's digit into the focused discard amount stays within `i32`.
pub fn is_digit_ready(g: &Game, keys: &KeyState) -> (r: bool)
    ensures
        r == digit_fits(*g, *keys),
{
    match (keys.digit, g.focused_storage_input) {
        (Some(d), Some(i)) => {
            if i >= 3 {
                return true;
            }
            let t = g.storage_discard_inputs[i] as i64 * 10;
            let u = t + d as i64;
            t >= i32::MIN as i64 && t <= i32::MAX as i64 && u >= i32::MIN as i64 && u <= i32::MAX as i64
        },
        _ => true,
    }
}

/// Input while the storage dialog is open: typed digits and backspace edit the focused
/// discard amount; then a click confirms or cancels a pending discard, closes the dialog,
/// or uses a row's minus, amount, plus and discard controls (see `storage_click`).
pub fn handle_storage_input(input: &InputState, keys: &KeyState, game: &mut Game)
    requires
        input_ready(*old(game)),
        keys.digit matches Some(d) ==> 0 <= d <= 9,
        digit_fits(*old(game), *keys),
    ensures
        final(game).wf(),
        final(game).screen == old(game).screen,
        final(game).base == old(game).base,
        final(game).expedition == old(game).expedition,
        final(game).prep_deck == old(game).prep_deck,
        total_of(final(game).resources) <= total_of(old(game).resources),
        storage_frame(*input, *keys, *old(game), *final(game)),
{
    if let Some(digit) = keys.digit {
        game.append_storage_discard_digit(digit);
    }
    let ghost m = *game;
    if keys.backspace_pressed {
        game.backspace_storage_discard_input();
    }
    let ghost t = *game;
    storage_click(input, game);
    proof {
        if keys.digit is Some && keys.backspace_pressed {
            assert(digit_typed(*old(game), m, keys.digit->0) && digit_erased(m, t));
        }
        assert(storage_keys_typed(*keys, *old(game), t) && storage_click_effect(*input, t, *game));
    }
}

/// Some dialog of the base screen is open.
pub open spec fn base_dialog_open(g: Game) -> bool {
    g.show_storage_dialog || g.show_character_dialog || g.show_crafting_dialog || g.show_build_menu
        || g.show_expedition_prep
}

/// The frame's click falls through to the side panel of the base screen: no dialog is open,
/// no building placement or cancellation takes the click, and no quit is being confirmed.
pub open spec fn base_panel_click(input: InputState, g: Game) -> bool {
    &&& input.left_pressed
    &&& !base_dialog_open(g)
    &&& !(input.mouse_x < BASE_VIEWPORT_WIDTH && input.mouse_y < BASE_VIEWPORT_HEIGHT && g.selected_building.is_some())
    &&& !(input.right_pressed && g.selected_building.is_some())
    &&& !g.confirm_quit
}

/// What the base screen asks of its caller this frame: saving from the save button, loading
/// from the load button.
pub open spec fn base_action(input: InputState, g: Game) -> InputAction {
    let (x, y) = (input.mouse_x as int, input.mouse_y as int);
    if base_panel_click(input, g) && in_rect(x, y, 1028, 474, 92, 38) {
        InputAction::Save
    } else if base_panel_click(input, g) && in_rect(x, y, 1132, 474, 92, 38) {
        InputAction::LoadIfSaved
    } else {
        InputAction::Nothing
    }
}

/// What choosing building `kind` makes of game `g`: it is selected for placement when
/// the stock covers its cost, refused with a notice otherwise.
pub open spec fn building_selected(g: Game, f: Game, kind: BuildingKind) -> bool {
    &&& affords(g.resources, cost_of(kind)) ==> f.message@ == "Selected "@ + display_name(kind) + ". Click a base tile."@
        && f == (Game {
        show_build_menu: false,
        show_expedition_prep: false,
        selected_building: Some(kind),
        message: f.message,
        ..g
    })
    &&& !affords(g.resources, cost_of(kind)) ==> f.message@ == "Not enough resources."@ && f == (Game { message: f.message, ..g })
}

/// What a left click at `(x, y)` in the build menu makes of game `g`: the tabs switch the
/// category, the building's button chooses it, "cancel" closes the menu.
pub open spec fn build_menu_click(g: Game, f: Game, x: int, y: int) -> bool {
    if in_rect(x, y, 290, 262, 124, 38) {
        f.message@ == "Choose a building."@ && f == (Game { build_menu_category: 0, message: f.message, ..g })
    } else if in_rect(x, y, 290, 308, 124, 38) {
        f.message@ == "Choose a building."@ && f == (Game { build_menu_category: 1, message: f.message, ..g })
    } else if in_rect(x, y, 510, 278, 180, 40) {
        building_selected(g, f, crate::screens::offered_building(g.build_menu_category).0)
    } else if in_rect(x, y, 510, 378, 180, 40) {
        f.message@ == "Build menu closed."@ && f == (Game { show_build_menu: false, message: f.message, ..g })
    } else {
        f == g
    }
}

/// Card `c` is the one offered in place `k` of the preparation: the movement card first,
/// the gathering card second.
pub open spec fn offered_card(k: int, c: Card) -> bool {
    if k == 0 { crate::card::is_move_step(c) } else { crate::card::is_gather_scrap(c) }
}

/// What a left click at `(x, y)` in the preparation makes of game `g`: an offered card is
/// added to the deck, a filled slot gives its card back, "depart" departs with the deck
/// and "cancel" closes the preparation.
pub open spec fn prep_click(g: Game, f: Game, x: int, y: int) -> bool {
    match first_hit(2, offer_hit(x, y)) {
        Some(k) => exists|c: Card| offered_card(k, c) && #[trigger] prep_card_added(g, f, c),
        None => match first_hit(5, slot_hit(x, y)) {
            Some(s) => prep_card_removed(g, f, s as usize),
            None => if in_rect(x, y, 700, 508, 100, 40) {
                departed(g, f, g.prep_deck@)
            } else if in_rect(x, y, 580, 508, 100, 40) {
                f.message@ == "Expedition preparation cancelled."@ && f.prep_deck.len() == 0 && f == (Game {
                    show_expedition_prep: false,
                    prep_deck: f.prep_deck,
                    message: f.message,
                    ..g
                })
            } else {
                f == g
            },
        },
    }
}

/// Input while the build menu is open: the right button closes it; a click picks a
/// category tab, selects the shown building (when affordable), or closes the menu.
#[verifier::spinoff_prover]
#[verifier::rlimit(40)]
fn build_menu_input(input: &InputState, game: &mut Game)
    requires
        old(game).wf(),
    ensures
        final(game).wf(),
        final(game).base == old(game).base,
        final(game).screen == old(game).screen,
        final(game).resources == old(game).resources,
        final(game).expedition == old(game).expedition,
        final(game).confirm_quit == old(game).confirm_quit,
        final(game).show_storage_dialog == old(game).show_storage_dialog,
        input.right_pressed ==> final(game).message@ == "Build menu closed."@
            && *final(game) == (Game { show_build_menu: false, message: final(game).message, ..*old(game) }),
        !input.right_pressed && !input.left_pressed ==> *final(game) == *old(game),
        !input.right_pressed && input.left_pressed ==> build_menu_click(*old(game), *final(game), input.mouse_x as int, input.mouse_y as int),
{
    if input.right_pressed {
        game.close_build_menu();
        return;
    }
    if input.left_pressed {
        let panel_x = BASE_VIEWPORT_WIDTH / 2 - 250;
        let panel_y = BASE_VIEWPORT_HEIGHT / 2 - 160;
        if point_in_rect(input.mouse_x, input.mouse_y, panel_x + 40, panel_y + 74, 124, 38) {
            game.set_build_menu_category(0);
        } else if point_in_rect(input.mouse_x, input.mouse_y, panel_x + 40, panel_y + 120, 124, 38) {
            game.set_build_menu_category(1);
        } else if point_in_rect(input.mouse_x, input.mouse_y, panel_x + 260, panel_y + 90, 180, 40) {
            let kind = if game.build_menu_category == 0 {
                BuildingKind::Campfire
            } else {
                BuildingKind::Workbench
            };
            select_building_if_affordable(game, kind);
        } else if point_in_rect(input.mouse_x, input.mouse_y, panel_x + 260, panel_y + 190, 180, 40) {
            game.close_build_menu();
        }
    }
}

/// Input while the expedition preparation is open: the right button cancels it; a click on
/// an offered card adds it to the deck, on a deck slot removes that card, on "Depart" starts
/// the expedition and on "Cancel" closes the preparation.
fn expedition_prep_input(input: &InputState, game: &mut Game)
    requires
        input_ready(*old(game)),
    ensures
        final(game).wf(),
        final(game).base == old(game).base,
        final(game).expedition == old(game).expedition,
        final(game).confirm_quit == old(game).confirm_quit,
        final(game).show_storage_dialog == old(game).show_storage_dialog,
        final(game).prep_deck.len() <= old(game).prep_deck.len() || final(game).prep_deck.len() <= MAX_PREP_CARDS,
        input.right_pressed ==> final(game).message@ == "Expedition preparation cancelled."@
            && final(game).prep_deck.len() == 0 && *final(game) == (Game {
            show_expedition_prep: false,
            prep_deck: final(game).prep_deck,
            message: final(game).message,
            ..*old(game)
        }),
        !input.right_pressed && !input.left_pressed ==> *final(game) == *old(game),
        !input.right_pressed && input.left_pressed ==> prep_click(*old(game), *final(game), input.mouse_x as int, input.mouse_y as int),
{
    if input.right_pressed {
        game.close_expedition_prep();
        return;
    }
    if input.left_pressed {
        if let Some(index) = expedition_card_index_at(input.mouse_x, input.mouse_y) {
            proof {
                lemma_first_hit(2, offer_hit(input.mouse_x as int, input.mouse_y as int));
            }
            let cards = Card::available_cards();
            if index < cards.len() {
                let card = cards[index].duplicate();
                let ghost g0 = *game;
                game.add_prep_card(card);
                proof {
                    // The card added is the one offered in that place.
                    assert(offered_card(index as int, card) && prep_card_added(g0, *game, card));
                }
            }
        } else if let Some(index) = expedition_slot_index_at(input.mouse_x, input.mouse_y) {
            game.remove_prep_card(index);
        } else {
            let panel_x = BASE_VIEWPORT_WIDTH / 2 - 316;
            let panel_y = BASE_VIEWPORT_HEIGHT / 2 - 212;
            if point_in_rect(input.mouse_x, input.mouse_y, panel_x + 516, panel_y + 372, 100, 40) {
                let deck = crate::card::duplicate_cards(&game.prep_deck);
                proof {
                    crate::card::lemma_food_cost_at_most(game.prep_deck@);
                    crate::card::lemma_food_cost_nonneg(game.prep_deck@);
                }
                game.start_expedition(deck);
            } else if point_in_rect(input.mouse_x, input.mouse_y, panel_x + 396, panel_y + 372, 100, 40) {
                game.close_expedition_prep();
            }
        }
    }
}

/// The pan of a frame as handed to the camera: `frame_pan`, kept within `i32`.
pub open spec fn frame_pan_clamped(input: InputState, keys: KeyState) -> (int, int) {
    (
        crate::game::clamp(frame_pan(input, keys).0, i32::MIN as int, i32::MAX as int),
        crate::game::clamp(frame_pan(input, keys).1, i32::MIN as int, i32::MAX as int),
    )
}

/// What a wheel turn of `scroll_y` makes of the expedition map of game `g`: one zoom
/// level in or out, nothing without a turn.
pub open spec fn expedition_wheel_zoomed(scroll_y: i32, g: Game, f: Game) -> bool {
    if scroll_y == 0 { f == g } else { expedition_zoomed(g, f, if scroll_y > 0 { 1 } else { -1 }, 1280, 588) }
}

/// What a pan of `(dx, dy)` makes of the expedition map of game `g`; nothing without one.
pub open spec fn expedition_pan_moved(dx: int, dy: int, g: Game, f: Game) -> bool {
    if dx == 0 && dy == 0 { f == g } else { expedition_panned(g, f, dx, dy, 1280, 588) }
}

/// What a wheel turn of `scroll_y` makes of the base view of game `g`: one zoom level in
/// or out, nothing without a turn.
pub open spec fn base_wheel_zoomed(scroll_y: i32, g: Game, f: Game) -> bool {
    if scroll_y == 0 { f == g } else { base_zoomed(g, f, if scroll_y > 0 { 1 } else { -1 }) }
}

/// What a pan of `(dx, dy)` makes of the base view of game `g`; nothing without one.
pub open spec fn base_pan_moved(dx: int, dy: int, g: Game, f: Game) -> bool {
    if dx == 0 && dy == 0 { f == g } else { base_panned(g, f, dx, dy, 1000, 696) }
}

/// What the view part of a base frame makes of game `g`: only the camera, the zoom and the
/// message may change, and nothing does without a wheel turn or a pan.
pub open spec fn base_view_moved(input: InputState, keys: KeyState, g: Game, v: Game) -> bool {
    &&& v == (Game {
        base: BaseState { camera_x: v.base.camera_x, camera_y: v.base.camera_y, zoom_level: v.base.zoom_level, ..g.base },
        message: v.message,
        ..g
    })
    &&& input.scroll_y == 0 && frame_pan(input, keys) == (0int, 0int) ==> v == g
}

/// The view part of a base frame: the wheel zooms in or out one level, and the right-button
/// drag plus WASD pan the camera.
#[verifier::spinoff_prover]
#[verifier::rlimit(40)]
fn base_view_input(input: &InputState, keys: &KeyState, game: &mut Game)
    requires
        old(game).wf(),
        old(game).base.camera_x > i32::MIN,
        old(game).base.camera_y > i32::MIN,
    ensures
        final(game).wf(),
        final(game).base.camera_x > i32::MIN,
        final(game).base.camera_y > i32::MIN,
        base_view_moved(*input, *keys, *old(game), *final(game)),
        exists|m: Game| base_wheel_zoomed(input.scroll_y, *old(game), m) && #[trigger] base_pan_moved(
            frame_pan_clamped(*input, *keys).0,
            frame_pan_clamped(*input, *keys).1,
            m,
            *final(game),
        ),
{
    if input.scroll_y > 0 {
        game.adjust_base_zoom(1);
    } else if input.scroll_y < 0 {
        game.adjust_base_zoom(-1);
    }
    let ghost g1 = *game;
    let (pan_x, pan_y) = pan_amounts(input, keys);
    if pan_x != 0 || pan_y != 0 {
        game.pan_base_camera(pan_x, pan_y, BASE_VIEWPORT_WIDTH, BASE_VIEWPORT_HEIGHT);
        proof {
            assert(game.base.camera_x >= 0 || game.base.camera_x == g1.base.camera_x);
            assert(game.base.camera_y >= 0 || game.base.camera_y == g1.base.camera_y);
        }
    }
    proof {
        assert(base_wheel_zoomed(input.scroll_y, *old(game), g1) && base_pan_moved(
            frame_pan_clamped(*input, *keys).0,
            frame_pan_clamped(*input, *keys).1,
            g1,
            *game,
        ));
    }
}

/// What a left click makes of the base screen `g` with no dialog open: with a building
/// selected, a click on a tile of the view places it there and a click elsewhere in the
/// view cancels the placement; with a quit to confirm, "confirm" goes back to the main
/// menu and any other click cancels it.
pub open spec fn base_click(input: InputState, g: Game, f: Game) -> bool {
    let (x, y) = (input.mouse_x, input.mouse_y);
    let placing = input.left_pressed && x < BASE_VIEWPORT_WIDTH && y < BASE_VIEWPORT_HEIGHT && g.selected_building is Some;
    &&& placing ==> match base_tile_under(g, x, y) {
        Some(t) => building_placed(g, f, t.0, t.1),
        None => f.message@ == "Building placement cancelled."@ && f == (Game { selected_building: None, message: f.message, ..g }),
    }
    &&& input.left_pressed && !placing && !(input.right_pressed && g.selected_building is Some) && g.confirm_quit ==> if in_rect(
        x as int,
        y as int,
        1028,
        612,
        92,
        36,
    ) {
        went_back(g, f)
    } else {
        f.message@ == "Quit cancelled."@ && f == (Game { confirm_quit: false, message: f.message, ..g })
    }
}

/// A click on the base screen with no dialog open: it places the selected building on the
/// tile under it (or cancels the placement off the tiles), answers a quit confirmation, or
/// presses a side-panel button; the right button cancels a placement.
fn base_click_input(input: &InputState, game: &mut Game) -> (action: InputAction)
    requires
        old(game).wf(),
        !base_dialog_open(*old(game)),
        cargo_fits(*old(game)),
        old(game).technologies.len() >= 1,
        old(game).base.size <= MAX_BASE_SIZE - 8,
        old(game).base.storage_capacity <= i32::MAX - 10,
        old(game).base.camera_x > i32::MIN,
        old(game).base.camera_y > i32::MIN,
    ensures
        final(game).expedition == old(game).expedition || final(game).expedition is None,
        final(game).wf(),
        action == base_action(*input, *old(game)),
        base_panel_click(*input, *old(game)) ==> match side_button(input.mouse_x as int, input.mouse_y as int) {
            Some(k) => pressed(k, *old(game), *final(game)),
            None => *final(game) == *old(game),
        },
        !input.left_pressed && !input.right_pressed ==> *final(game) == *old(game),
        input.right_pressed && old(game).selected_building is Some && !(input.left_pressed && input.mouse_x
            < BASE_VIEWPORT_WIDTH && input.mouse_y < BASE_VIEWPORT_HEIGHT) ==> final(game).message@
            == "Building placement cancelled."@ && *final(game) == (Game {
            selected_building: None,
            message: final(game).message,
            ..*old(game)
        }),
        base_click(*input, *old(game), *final(game)),
{
    if input.left_pressed && input.mouse_x < BASE_VIEWPORT_WIDTH && input.mouse_y < BASE_VIEWPORT_HEIGHT {
        if game.selected_building.is_some() {
            if let Some((x, y)) = screen_to_base_tile(game, input.mouse_x, input.mouse_y) {
                game.place_selected_building(x, y);
            } else {
                game.cancel_building_placement();
            }
            return InputAction::Nothing;
        }
    }
    if input.right_pressed && game.selected_building.is_some() {
        game.cancel_building_placement();
        return InputAction::Nothing;
    }
    if !input.left_pressed {
        return InputAction::Nothing;
    }
    let panel_x = BASE_VIEWPORT_WIDTH + 28;
    if game.confirm_quit {
        if point_in_rect(input.mouse_x, input.mouse_y, panel_x, 612, 92, 36) {
            game.back_or_quit();
        } else {
            game.cancel_quit_confirmation();
        }
        return InputAction::Nothing;
    }
    side_panel_click(input.mouse_x, input.mouse_y, game)
}

/// The side-panel button under `(x, y)`, numbered from the top: character, storage,
/// crafting, build, research, explore, save, load, quit.
pub open spec fn side_button(x: int, y: int) -> Option<int> {
    if in_rect(x, y, 1028, 224, 196, 38) {
        Some(0)
    } else if in_rect(x, y, 1028, 274, 196, 38) {
        Some(1)
    } else if in_rect(x, y, 1028, 324, 196, 38) {
        Some(2)
    } else if in_rect(x, y, 1028, 374, 92, 38) {
        Some(3)
    } else if in_rect(x, y, 1132, 374, 92, 38) {
        Some(4)
    } else if in_rect(x, y, 1028, 424, 196, 38) {
        Some(5)
    } else if in_rect(x, y, 1028, 474, 92, 38) {
        Some(6)
    } else if in_rect(x, y, 1132, 474, 92, 38) {
        Some(7)
    } else if in_rect(x, y, 1028, 524, 196, 38) {
        Some(8)
    } else {
        None
    }
}

fn side_panel_button(x: usize, y: usize) -> (b: Option<u8>)
    ensures
        match b {
            Some(i) => side_button(x as int, y as int) == Some(i as int),
            None => side_button(x as int, y as int) is None,
        },
{
    let panel_x = BASE_VIEWPORT_WIDTH + 28;
    if point_in_rect(x, y, panel_x, 224, 196, 38) {
        Some(0)
    } else if point_in_rect(x, y, panel_x, 274, 196, 38) {
        Some(1)
    } else if point_in_rect(x, y, panel_x, 324, 196, 38) {
        Some(2)
    } else if point_in_rect(x, y, panel_x, 374, 92, 38) {
        Some(3)
    } else if point_in_rect(x, y, panel_x + 104, 374, 92, 38) {
        Some(4)
    } else if point_in_rect(x, y, panel_x, 424, 196, 38) {
        Some(5)
    } else if point_in_rect(x, y, panel_x, 474, 92, 38) {
        Some(6)
    } else if point_in_rect(x, y, panel_x + 104, 474, 92, 38) {
        Some(7)
    } else if point_in_rect(x, y, panel_x, 524, 196, 38) {
        Some(8)
    } else {
        None
    }
}

/// What pressing side-panel button `b` makes of the base screen `g` (a selected building
/// and a quit confirmation are dropped first): the character, storage and build dialogs
/// open, crafting opens with a workbench, research runs, the preparation starts, saving
/// and loading are left to the caller, and quitting asks to confirm.
pub open spec fn pressed(b: int, g: Game, f: Game) -> bool {
    let cleared = Game { selected_building: None, confirm_quit: false, ..g };
    if b == 0 {
        f.message@ == "Character opened."@ && f == (Game {
            show_storage_dialog: false,
            show_crafting_dialog: false,
            show_build_menu: false,
            show_expedition_prep: false,
            show_character_dialog: true,
            message: f.message,
            ..cleared
        })
    } else if b == 1 {
        f.message@ == "Storage opened."@ && f == (Game {
            show_character_dialog: false,
            show_crafting_dialog: false,
            show_build_menu: false,
            show_expedition_prep: false,
            show_storage_dialog: true,
            focused_storage_input: None,
            pending_storage_discard: None,
            message: f.message,
            ..cleared
        })
    } else if b == 2 {
        if has_kind(g.base.buildings@, BuildingKind::Workbench) {
            f.message@ == "Crafting opened."@ && f == (Game {
                show_storage_dialog: false,
                show_character_dialog: false,
                show_build_menu: false,
                show_expedition_prep: false,
                show_crafting_dialog: true,
                message: f.message,
                ..cleared
            })
        } else {
            f.message@ == "Build a Workbench first."@ && f == (Game { message: f.message, ..cleared })
        }
    } else if b == 3 {
        f.message@ == "Choose a building."@ && f == (Game {
            show_storage_dialog: false,
            show_expedition_prep: false,
            show_character_dialog: false,
            show_crafting_dialog: false,
            show_build_menu: true,
            build_menu_category: 0,
            message: f.message,
            ..cleared
        })
    } else if b == 4 {
        researched(cleared, f)
    } else if b == 5 {
        f.message@ == "Choose cards for the expedition."@ && f.prep_deck.len() == 0 && f == (Game {
            show_storage_dialog: false,
            show_build_menu: false,
            show_character_dialog: false,
            show_crafting_dialog: false,
            show_expedition_prep: true,
            prep_deck: f.prep_deck,
            message: f.message,
            ..cleared
        })
    } else if b == 8 {
        f.message@ == "Confirm quit."@ && f == (Game { confirm_quit: true, message: f.message, ..cleared })
    } else if g.selected_building is Some {
        f.message@ == "Building placement cancelled."@ && f == (Game { message: f.message, ..cleared })
    } else {
        f == cleared
    }
}

/// What a side-panel button does after the selection and the quit confirmation were
/// dropped: open its dialog, research, start the preparation, or hand saving or loading
/// to the caller.
fn press_side_button(button: u8, game: &mut Game) -> (action: InputAction)
    requires
        !old(game).show_crafting_dialog,
        old(game).wf(),
        old(game).technologies.len() >= 1,
        old(game).base.size <= MAX_BASE_SIZE - 8,
        old(game).selected_building is None,
        !old(game).confirm_quit,
        button < 8,
    ensures
        final(game).expedition == old(game).expedition || final(game).expedition is None,
        final(game).wf(),
        pressed(button as int, *old(game), *final(game)),
        button == 6 || button == 7 ==> *final(game) == *old(game),
        final(game).screen == old(game).screen,
        action == (if button == 6 {
            InputAction::Save
        } else if button == 7 {
            InputAction::LoadIfSaved
        } else {
            InputAction::Nothing
        }),
{
    if button == 0 {
        game.show_character_dialog();
    } else if button == 1 {
        game.show_storage_dialog();
    } else if button == 2 {
        game.show_crafting_dialog();
    } else if button == 3 {
        game.open_build_menu();
    } else if button == 4 {
        game.unlock_first_technology();
    } else if button == 5 {
        game.open_expedition_prep();
    } else if button == 6 {
        return InputAction::Save;
    } else {
        return InputAction::LoadIfSaved;
    }
    InputAction::Nothing
}

/// A click on the side panel of the base screen: each button first drops a selected
/// building and a quit confirmation, then does its work; the quit button asks to confirm
/// quitting.
fn side_panel_click(x: usize, y: usize, game: &mut Game) -> (action: InputAction)
    requires
        !old(game).show_crafting_dialog,
        old(game).wf(),
        old(game).technologies.len() >= 1,
        old(game).base.size <= MAX_BASE_SIZE - 8,
    ensures
        final(game).expedition == old(game).expedition || final(game).expedition is None,
        final(game).wf(),
        action == (if in_rect(x as int, y as int, 1028, 474, 92, 38) {
            InputAction::Save
        } else if in_rect(x as int, y as int, 1132, 474, 92, 38) {
            InputAction::LoadIfSaved
        } else {
            InputAction::Nothing
        }),
        side_button(x as int, y as int) is None ==> *final(game) == *old(game),
        side_button(x as int, y as int) matches Some(k) ==> pressed(k, *old(game), *final(game)),
{
    match side_panel_button(x, y) {
        None => InputAction::Nothing,
        Some(button) => {
            game.cancel_building_if_selected();
            if button == 8 {
                game.request_quit_confirmation();
                InputAction::Nothing
            } else {
                game.confirm_quit = false;
                press_side_button(button, game)
            }
        },
    }
}

/// Input on the base screen: the open dialog takes it; otherwise the wheel zooms, the right
/// mouse button and WASD pan, a click places or cancels the selected building, answers a
/// quit confirmation, or presses a side-panel button.
pub fn handle_base_input(input: &InputState, keys: &KeyState, game: &mut Game) -> (action: InputAction)
    requires
        input_ready(*old(game)),
        keys.digit matches Some(d) ==> 0 <= d <= 9,
        old(game).show_storage_dialog ==> digit_fits(*old(game), *keys),
    ensures
        final(game).wf(),
        base_frame(*input, *keys, *old(game), *final(game), action),
{
    if game.show_storage_dialog {
        handle_storage_input(input, keys, game);
        return InputAction::Nothing;
    }
    if game.show_character_dialog {
        let panel_x = BASE_VIEWPORT_WIDTH / 2 - 240;
        let panel_y = BASE_VIEWPORT_HEIGHT / 2 - 150;
        if input.left_pressed && point_in_rect(input.mouse_x, input.mouse_y, panel_x + 188, panel_y + 246, 104, 40) {
            game.hide_character_dialog();
        }
        return InputAction::Nothing;
    }
    if game.show_crafting_dialog {
        let panel_x = BASE_VIEWPORT_WIDTH / 2 - 240;
        let panel_y = BASE_VIEWPORT_HEIGHT / 2 - 130;
        if input.left_pressed && point_in_rect(input.mouse_x, input.mouse_y, panel_x + 188, panel_y + 206, 104, 40) {
            game.hide_crafting_dialog();
        }
        return InputAction::Nothing;
    }
    if game.show_build_menu {
        build_menu_input(input, game);
        return InputAction::Nothing;
    }
    if game.show_expedition_prep {
        expedition_prep_input(input, game);
        return InputAction::Nothing;
    }
    base_view_input(input, keys, game);
    let ghost v = *game;
    let action = base_click_input(input, game);
    proof {
        assert(base_viewed(*input, *keys, *old(game), v) && base_view_moved(*input, *keys, *old(game), v)
            && base_acted(*input, v, *game));
        if base_panel_click(*input, *old(game)) {
            if let Some(k) = side_button(input.mouse_x as int, input.mouse_y as int) {
                // The button acts on the game as the view step left it.
                assert(base_view_moved(*input, *keys, *old(game), v) && pressed(k, v, *game));
            }
        }
    }
    action
}

/// The expedition is unchanged but for its camera and zoom.
pub open spec fn same_but_view(e: ExpeditionState, f: ExpeditionState) -> bool {
    f == ExpeditionState { camera_x: f.camera_x, camera_y: f.camera_y, zoom_level: f.zoom_level, ..e }
}

/// What a view change of the expedition keeps: everything but its camera and zoom, and the
/// conditions for handling input.
pub open spec fn view_changed(g0: Game, g1: Game) -> bool {
    &&& g1.wf()
    &&& g0.expedition is None ==> g1 == g0
    &&& g0.expedition matches Some(e) ==> g1.expedition matches Some(f) && same_but_view(e, f) && expedition_ready(f)
    &&& g1 == (Game { expedition: g1.expedition, message: g1.message, ..g0 })
}

/// The wheel zooms the expedition map in or out one level.
#[verifier::spinoff_prover]
#[verifier::rlimit(40)]
fn expedition_zoom_step(scroll_y: i32, game: &mut Game)
    requires
        old(game).wf(),
        old(game).expedition matches Some(e) ==> expedition_ready(e),
    ensures
        view_changed(*old(game), *final(game)),
        scroll_y == 0 ==> *final(game) == *old(game),
        expedition_wheel_zoomed(scroll_y, *old(game), *final(game)),
{
    if scroll_y == 0 {
        return;
    }
    let delta: i32 = if scroll_y > 0 { 1 } else { -1 };
    if let Some(e) = &game.expedition {
        proof {
            let next = crate::game::clamp(e.zoom_level + delta, 0, 5);
            let t = 12 + next * 4;
            let w = e.map.width as int;
            let h = e.map.height as int;
            assert(w * t <= w * 32) by (nonlinear_arith) requires w >= 0, t <= 32;
            assert(h * t <= h * 32) by (nonlinear_arith) requires h >= 0, t <= 32;
        }
    }
    let ghost g0 = *game;
    game.adjust_expedition_zoom(delta, WIDTH, EXPEDITION_VIEWPORT_HEIGHT);
    proof {
        if let Some(e) = g0.expedition {
            let f = game.expedition->0;
            assert(forall|j: int| 0 <= j < f.hand.len() ==> card_fits(f, #[trigger] f.hand@[j]) == card_fits(e, e.hand@[j]));
        }
    }
}

/// The right-button drag and WASD move the expedition camera.
fn expedition_pan_step(dx: i32, dy: i32, game: &mut Game)
    requires
        old(game).wf(),
        old(game).expedition matches Some(e) ==> expedition_ready(e),
    ensures
        view_changed(*old(game), *final(game)),
        dx == 0 && dy == 0 ==> *final(game) == *old(game),
        expedition_pan_moved(dx as int, dy as int, *old(game), *final(game)),
{
    if dx == 0 && dy == 0 {
        return;
    }
    let ghost g0 = *game;
    game.pan_expedition_camera(dx, dy, WIDTH, EXPEDITION_VIEWPORT_HEIGHT);
    proof {
        if let Some(e) = g0.expedition {
            let f = game.expedition->0;
            assert(forall|j: int| 0 <= j < f.hand.len() ==> card_fits(f, #[trigger] f.hand@[j]) == card_fits(e, e.hand@[j]));
        }
    }
}

/// The view part of an expedition frame: the wheel zooms the map in or out one level, and
/// the right-button drag plus WASD pan the camera.
fn expedition_view_input(input: &InputState, keys: &KeyState, game: &mut Game)
    requires
        old(game).wf(),
        old(game).expedition matches Some(e) ==> expedition_ready(e),
    ensures
        view_changed(*old(game), *final(game)),
        input.scroll_y == 0 && frame_pan(*input, *keys) == (0int, 0int) ==> *final(game) == *old(game),
        exists|m: Game| expedition_wheel_zoomed(input.scroll_y, *old(game), m) && #[trigger] expedition_pan_moved(
            frame_pan_clamped(*input, *keys).0,
            frame_pan_clamped(*input, *keys).1,
            m,
            *final(game),
        ),
{
    expedition_zoom_step(input.scroll_y, game);
    let ghost zoomed = *game;
    let (pan_x, pan_y) = pan_amounts(input, keys);
    expedition_pan_step(pan_x, pan_y, game);
    proof {
        assert(expedition_wheel_zoomed(input.scroll_y, *old(game), zoomed) && expedition_pan_moved(
            frame_pan_clamped(*input, *keys).0,
            frame_pan_clamped(*input, *keys).1,
            zoomed,
            *game,
        ));
    }
}

/// A left click on the expedition screen: the bag and return buttons, a map tile as the
/// destination of a waiting movement card, or else a hand card picked up for dragging.
/// Returns whether the click was taken by a button or the map, which ends the frame.
fn expedition_click_input(input: &mut InputState, game: &mut Game) -> (done: bool)
    requires
        old(game).wf(),
        cargo_fits(*old(game)),
        old(game).expedition matches Some(e) ==> e.camera_x > i32::MIN && e.camera_y > i32::MIN,
    ensures
        final(game).wf(),
        old(game).expedition matches Some(e) ==> (final(game).expedition matches Some(f) ==> f.carried().to_multiset()
            == e.carried().to_multiset()),
        *final(input) == (InputState { dragged_expedition_card: final(input).dragged_expedition_card, ..*old(input) }),
        !old(input).left_pressed ==> !done && *final(input) == *old(input) && *final(game) == *old(game),
        done ==> *final(input) == *old(input),
        !done ==> *final(game) == *old(game),
        final(input).dragged_expedition_card != old(input).dragged_expedition_card ==> (final(input).dragged_expedition_card matches Some(i)
            && first_hit(5, hand_hit(old(input).mouse_x as int, old(input).mouse_y as int))
            == Some(i as int)) && (old(game).expedition matches Some(e) && e.pending_move_card is None),
        old(input).left_pressed && in_rect(old(input).mouse_x as int, old(input).mouse_y as int, 1148, 616, 104, 40) ==> done
            && final(game).message@ == "Expedition bag opened."@ && *final(game) == (Game {
            show_expedition_bag: true,
            message: final(game).message,
            ..*old(game)
        }),
        old(input).left_pressed && in_rect(old(input).mouse_x as int, old(input).mouse_y as int, 1148, 662, 104, 40) ==> done
            && evacuated(*old(game), *final(game)),
        old(input).left_pressed && !in_rect(old(input).mouse_x as int, old(input).mouse_y as int, 1148, 616, 104, 40)
            && !in_rect(old(input).mouse_x as int, old(input).mouse_y as int, 1148, 662, 104, 40) ==> match map_tile_under(
            *old(game),
            old(input).mouse_x,
            old(input).mouse_y,
        ) {
            Some(t) => done && move_chosen(*old(game), *final(game), t.0, t.1),
            None => !done && ((old(game).expedition matches Some(e) && e.pending_move_card is None) ==> (first_hit(
                5,
                hand_hit(old(input).mouse_x as int, old(input).mouse_y as int),
            ) matches Some(k) ==> final(input).dragged_expedition_card == Some(k as usize))),
        },
{
    if !input.left_pressed {
        return false;
    }
    let button_x = WIDTH - 132;
    if point_in_rect(input.mouse_x, input.mouse_y, button_x, HEIGHT - 104, 104, 40) {
        game.show_expedition_bag();
        return true;
    }
    if point_in_rect(input.mouse_x, input.mouse_y, button_x, HEIGHT - 58, 104, 40) {
        game.evacuate();
        return true;
    }
    if let Some((tile_x, tile_y)) = expedition_map_tile_at(game, input.mouse_x, input.mouse_y) {
        game.choose_move_destination(tile_x, tile_y);
        return true;
    }
    let waiting = match &game.expedition {
        Some(e) => e.pending_move_card.is_some(),
        None => true,
    };
    if !waiting {
        if let Some(index) = expedition_hand_card_index_at(input.mouse_x, input.mouse_y) {
            input.dragged_expedition_card = Some(index);
        }
    }
    false
}

/// Releasing the left button drops a dragged hand card: over the hand it moves to the slot
/// under the pointer, over the map it is played.
fn expedition_release_input(input: &mut InputState, game: &mut Game)
    requires
        old(game).wf(),
        old(game).expedition matches Some(e) ==> expedition_ready(e),
    ensures
        final(game).wf(),
        old(game).expedition matches Some(e) ==> final(game).expedition matches Some(f) && f.carried().to_multiset()
            == e.carried().to_multiset(),
        old(game).expedition is None ==> *final(game) == *old(game),
        *final(input) == (InputState {
            dragged_expedition_card: if old(input).left_released { None } else { old(input).dragged_expedition_card },
            ..*old(input)
        }),
        !old(input).left_released || old(input).dragged_expedition_card is None ==> *final(game) == *old(game),
        old(input).left_released ==> (old(input).dragged_expedition_card matches Some(i) ==> if old(input).mouse_y >= 588 {
            hand_reordered(*old(game), *final(game), i, drop_slot(old(input).mouse_x))
        } else {
            hand_card_played(*old(game), *final(game), i)
        }),
{
    if !input.left_released {
        return;
    }
    if let Some(index) = input.dragged_expedition_card.take() {
        if input.mouse_y >= EXPEDITION_VIEWPORT_HEIGHT {
            let target = expedition_hand_drop_index(input.mouse_x);
            game.reorder_hand_card(index, target);
        } else {
            game.play_hand_card(index);
        }
    }
}

/// Input on the expedition screen: while the bag is open only its close button works;
/// otherwise the wheel zooms and the right button and WASD pan the map, a click opens the
/// bag, returns to the base, picks a movement destination or picks up a hand card, and
/// releasing a dragged card reorders the hand or plays the card. Loading a save (the L key)
/// is left to the caller.
pub fn handle_expedition_input(input: &mut InputState, keys: &KeyState, game: &mut Game)
    requires
        input_ready(*old(game)),
    ensures
        final(game).wf(),
        expedition_frame(*old(input), *keys, *old(game), *final(game), *final(input)),
{
    if game.show_expedition_bag {
        let panel_x = WIDTH / 2 - 180;
        if input.left_pressed && point_in_rect(input.mouse_x, input.mouse_y, panel_x + 128, 324, 104, 40) {
            game.hide_expedition_bag();
        }
        return;
    }
    let ghost g0 = *game;
    let ghost i0 = *input;
    expedition_view_input(input, keys, game);
    let ghost v = *game;
    if expedition_click_input(input, game) {
        proof {
            if let Some(e) = g0.expedition {
                // The view step leaves the cargo and everything outside the expedition as it was.
                assert(v.expedition->0.cargo == e.cargo);
            }
            assert(expedition_viewed(i0, *keys, g0, v) && view_changed(g0, v) && expedition_act(i0, v, *game, *input));
        }
        return;
    }
    expedition_release_input(input, game);
    proof {
        assert(expedition_viewed(i0, *keys, g0, v) && view_changed(g0, v) && expedition_act(i0, v, *game, *input));
    }
}

/// Input of one frame, by screen. Escape goes back everywhere but in the base view:
/// it quits from the main menu, returns to it from the game-over screen and evacuates an
/// expedition. Otherwise the main menu, the base and the game-over screen take clicks; the expedition screen takes its input (after the caller has handled its load
/// key); loading screens take none. Returns what the caller is asked to do with the save
/// file.
pub fn handle_input(input: &mut InputState, keys: &KeyState, game: &mut Game) -> (action: InputAction)
    requires
        input_ready(*old(game)),
        keys.digit matches Some(d) ==> 0 <= d <= 9,
        old(game).screen == Screen::Base && old(game).show_storage_dialog ==> digit_fits(*old(game), *keys),
    ensures
        final(game).wf(),
        old(game).screen == Screen::TransitionToBase || old(game).screen == Screen::TransitionToExpedition
            ==> action == InputAction::Nothing && *final(game) == *old(game) && *final(input) == *old(input),
        old(game).screen == Screen::Base ==> action == base_action(*old(input), *old(game)),
        old(game).screen != Screen::Expedition || keys.escape_pressed ==> *final(input) == *old(input),
        old(game).screen == Screen::Expedition ==> action == InputAction::Nothing,
        keys.escape_pressed && old(game).screen == Screen::MainMenu ==> action == InputAction::Nothing && *final(game)
            == (Game { should_quit: true, ..*old(game) }),
        keys.escape_pressed && old(game).screen == Screen::GameOver ==> action == InputAction::Nothing
            && final(game).screen == Screen::MainMenu,
        keys.escape_pressed && old(game).screen == Screen::Expedition ==> evacuated(*old(game), *final(game)),
        !keys.escape_pressed && old(game).screen == Screen::MainMenu ==> menu_frame(*old(input), *old(game), *final(game), action),
        !keys.escape_pressed && old(game).screen == Screen::GameOver ==> game_over_frame(
            *old(input),
            *old(game),
            *final(game),
            action,
        ),
        old(game).screen == Screen::Base ==> base_frame(*old(input), *keys, *old(game), *final(game), action),
        !keys.escape_pressed && old(game).screen == Screen::Expedition ==> expedition_frame(
            *old(input),
            *keys,
            *old(game),
            *final(game),
            *final(input),
        ),
        old(game).expedition matches Some(e) ==> (final(game).expedition matches Some(f) ==> f.carried().to_multiset()
            == e.carried().to_multiset()),
{
    if keys.escape_pressed && game.screen != Screen::Base {
        game.back_or_quit();
        return InputAction::Nothing;
    }
    if game.screen == Screen::MainMenu {
        return handle_menu_input(input, game);
    }
    if game.screen == Screen::Base {
        return handle_base_input(input, keys, game);
    }
    if game.screen == Screen::Expedition {
        handle_expedition_input(input, keys, game);
        return InputAction::Nothing;
    }
    if game.screen == Screen::GameOver {
        return handle_game_over_input(input, game);
    }
    InputAction::Nothing
}

/// The tile reported under a point of the map view is the tile drawn there: the point lies
/// in that tile's square as the map is drawn (`map_corner`), and a point of the view inside
/// the square of a map tile reports that tile.
pub proof fn lemma_tile_under_is_drawn_tile(e: ExpeditionState, mx: usize, my: usize)
    requires
        mx <= i32::MAX,
        my <= i32::MAX,
    ensures
        tile_under(e, mx, my) matches Some(t) ==> ({
            let corner = crate::screens::map_corner(e, t.0 as int, t.1 as int);
            let side = 12 + e.zoom_level * 4;
            &&& 0 <= t.0 < e.map.width
            &&& 0 <= t.1 < e.map.height
            &&& corner.0 <= mx < corner.0 + side
            &&& corner.1 <= my < corner.1 + side
        }),
        forall|tx: int, ty: int|
            0 <= tx < e.map.width && 0 <= ty < e.map.height && my < EXPEDITION_VIEWPORT_HEIGHT && crate::screens::map_corner(
                e,
                tx,
                ty,
            ).0 <= mx < crate::screens::map_corner(e, tx, ty).0 + 12 + e.zoom_level * 4 && crate::screens::map_corner(e, tx, ty).1
                <= my < #[trigger] crate::screens::map_corner(e, tx, ty).1 + 12 + e.zoom_level * 4 ==> tile_under(e, mx, my)
                == Some((tx as i32, ty as i32)),
{
    let side = 12 + e.zoom_level * 4;
    let ox = origin_axis(e.content_size_spec().0, WIDTH as int, e.camera_x as int);
    let oy = origin_axis(e.content_size_spec().1, EXPEDITION_VIEWPORT_HEIGHT as int, e.camera_y as int);
    let lx = mx as int - ox;
    let ly = my as int - oy;
    assert((mx as i32) as int == mx as int);
    assert((my as i32) as int == my as int);
    if lx >= 0 && ly >= 0 {
        vstd::arithmetic::div_mod::lemma_fundamental_div_mod(lx, side);
        vstd::arithmetic::div_mod::lemma_fundamental_div_mod(ly, side);
        vstd::arithmetic::div_mod::lemma_mod_pos_bound(lx, side);
        vstd::arithmetic::div_mod::lemma_mod_pos_bound(ly, side);
        assert(side * (lx / side) == (lx / side) * side) by (nonlinear_arith);
        assert(side * (ly / side) == (ly / side) * side) by (nonlinear_arith);
        assert(lx / side >= 0) by (nonlinear_arith) requires lx >= 0, side > 0;
        assert(ly / side >= 0) by (nonlinear_arith) requires ly >= 0, side > 0;
    }
    assert forall|tx: int, ty: int|
        0 <= tx < e.map.width && 0 <= ty < e.map.height && my < EXPEDITION_VIEWPORT_HEIGHT && crate::screens::map_corner(
            e,
            tx,
            ty,
        ).0 <= mx < crate::screens::map_corner(e, tx, ty).0 + 12 + e.zoom_level * 4 && crate::screens::map_corner(e, tx, ty).1
            <= my < #[trigger] crate::screens::map_corner(e, tx, ty).1 + 12 + e.zoom_level * 4 implies tile_under(e, mx, my)
            == Some((tx as i32, ty as i32)) by {
        assert(lx == tx * side + (lx - tx * side));
        vstd::arithmetic::div_mod::lemma_fundamental_div_mod_converse(lx, side, tx, lx - tx * side);
        vstd::arithmetic::div_mod::lemma_fundamental_div_mod_converse(ly, side, ty, ly - ty * side);
        assert(tx * side >= 0) by (nonlinear_arith) requires tx >= 0, side > 0;
        assert(ty * side >= 0) by (nonlinear_arith) requires ty >= 0, side > 0;
    }
}

/// Each side-panel button does what the label drawn on it says (`base_text_px` draws the
/// character, storage, craft, build, research, explore, save, load and quit labels on these
/// rectangles): a left click on the base screen, with no dialog open, nothing selected and
/// no quit to confirm, opens the matching dialog, researches, starts the preparation, asks
/// the caller to save or load, or asks to confirm quitting.
pub proof fn lemma_side_panel_buttons(input: InputState, keys: KeyState, g: Game, f: Game, action: InputAction)
    requires
        base_frame(input, keys, g, f, action),
        !base_dialog_open(g),
        g.selected_building is None,
        !g.confirm_quit,
        input.left_pressed,
        !input.right_pressed,
    ensures
        in_rect(input.mouse_x as int, input.mouse_y as int, 1028, 224, 196, 38) ==> f.show_character_dialog
            && f.message@ == "Character opened."@,
        in_rect(input.mouse_x as int, input.mouse_y as int, 1028, 274, 196, 38) ==> f.show_storage_dialog
            && f.message@ == "Storage opened."@,
        in_rect(input.mouse_x as int, input.mouse_y as int, 1028, 324, 196, 38) ==> if has_kind(
            g.base.buildings@,
            BuildingKind::Workbench,
        ) {
            f.show_crafting_dialog && f.message@ == "Crafting opened."@
        } else {
            !f.show_crafting_dialog && f.message@ == "Build a Workbench first."@
        },
        in_rect(input.mouse_x as int, input.mouse_y as int, 1028, 374, 92, 38) ==> f.show_build_menu
            && f.message@ == "Choose a building."@,
        in_rect(input.mouse_x as int, input.mouse_y as int, 1132, 374, 92, 38) ==> f.message@ == "Build a Research Table first."@
            || f.message@ == "Technology already unlocked."@ || f.message@ == "Need 5 wood and 5 stone for Base Expansion I."@
            || f.message@ == "Unlocked Base Expansion I. Base expanded."@,
        in_rect(input.mouse_x as int, input.mouse_y as int, 1028, 424, 196, 38) ==> f.show_expedition_prep
            && f.message@ == "Choose cards for the expedition."@,
        in_rect(input.mouse_x as int, input.mouse_y as int, 1028, 474, 92, 38) ==> action == InputAction::Save,
        in_rect(input.mouse_x as int, input.mouse_y as int, 1132, 474, 92, 38) ==> action == InputAction::LoadIfSaved,
        in_rect(input.mouse_x as int, input.mouse_y as int, 1028, 524, 196, 38) ==> f.confirm_quit && f.message@
            == "Confirm quit."@,
{
    let v = choose|v: Game|
        base_viewed(input, keys, g, v) && base_view_moved(input, keys, g, v) && #[trigger] base_acted(input, v, f);
    assert(v.base.buildings == g.base.buildings);
    assert(base_panel_click(input, v));
}

} // verus!
