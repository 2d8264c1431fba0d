use vstd::prelude::*;

use crate::frame::{col_of, in_box, lemma_pixel_bounds, row_of, PIXELS, WIDTH, HEIGHT};
use crate::card::CardKind;
use crate::data::BuildingKind;
use crate::game::DepartBlockReason;
use crate::map::Tile;
use crate::render::{blend, Renderer};

verus! {

broadcast use lemma_pixel_bounds;

/// Number of interface labels.
pub const LABEL_COUNT: usize = 84;

// Label numbers. A label is a pre-rendered bitmap of a piece of interface text.
pub const NEW_GAME_LABEL: usize = 0;
pub const LOAD_GAME_LABEL: usize = 1;
pub const QUIT_LABEL: usize = 2;
pub const LOAD_SAVE_BUTTON_LABEL: usize = 3;
pub const RESTART_BUTTON_LABEL: usize = 4;
pub const MAIN_MENU_BUTTON_LABEL: usize = 5;
pub const DEATH_FOOD_LABEL: usize = 6;
pub const DEATH_CHARACTERS_LABEL: usize = 7;
pub const BASE_TITLE_LABEL: usize = 8;
pub const WOOD_LABEL: usize = 9;
pub const STONE_LABEL: usize = 10;
pub const FOOD_LABEL: usize = 11;
pub const SIZE_LABEL: usize = 12;
pub const BUILDINGS_LABEL: usize = 13;
pub const CAPACITY_LABEL: usize = 14;
pub const BUILD_BUTTON_LABEL: usize = 15;
pub const RESEARCH_BUTTON_LABEL: usize = 16;
pub const EXPLORE_BUTTON_LABEL: usize = 17;
pub const SAVE_BUTTON_LABEL: usize = 18;
pub const LOAD_BUTTON_LABEL: usize = 19;
pub const STORAGE_BUTTON_LABEL: usize = 20;
pub const STORAGE_TITLE_LABEL: usize = 21;
pub const CRAFT_BUTTON_LABEL: usize = 22;
pub const CRAFT_TITLE_LABEL: usize = 23;
pub const STATION_CATEGORY_LABEL: usize = 24;
pub const CONFIRM_QUIT_LABEL: usize = 25;
pub const CHARACTER_BUTTON_LABEL: usize = 26;
pub const CHARACTER_TITLE_LABEL: usize = 27;
pub const HP_LABEL: usize = 28;
pub const ATTACK_STAT_LABEL: usize = 29;
pub const DEFENSE_STAT_LABEL: usize = 30;
pub const SPEED_STAT_LABEL: usize = 31;
pub const CLOSE_BUTTON_LABEL: usize = 32;
pub const BUILD_MENU_TITLE_LABEL: usize = 33;
pub const SMALL_STOREHOUSE_LABEL: usize = 34;
pub const WORKBENCH_LABEL: usize = 35;
pub const CANCEL_BUTTON_LABEL: usize = 36;
pub const WOOD_DESC_LABEL: usize = 37;
pub const STONE_DESC_LABEL: usize = 38;
pub const FOOD_DESC_LABEL: usize = 39;
pub const COST_LABEL: usize = 40;
pub const FOOTPRINT_LABEL: usize = 41;
pub const USAGE_LABEL: usize = 42;
pub const FOOTPRINT_1X1_LABEL: usize = 43;
pub const USE_SMALL_STOREHOUSE_LABEL: usize = 44;
pub const USE_STOREHOUSE_LABEL: usize = 45;
pub const USE_WORKBENCH_LABEL: usize = 46;
pub const USE_RESEARCH_TABLE_LABEL: usize = 47;
pub const USE_TRAINING_DUMMY_LABEL: usize = 48;
pub const EXPEDITION_PREP_TITLE_LABEL: usize = 49;
pub const PREP_AVAILABLE_CARDS_LABEL: usize = 50;
pub const PREP_CARRIED_CARDS_LABEL: usize = 51;
pub const DEPART_BUTTON_LABEL: usize = 52;
pub const RETURN_BUTTON_LABEL: usize = 53;
pub const BAG_BUTTON_LABEL: usize = 54;
pub const EXPEDITION_BAG_TITLE_LABEL: usize = 55;
pub const CARD_MOVE_LABEL: usize = 56;
pub const CARD_GATHER_LABEL: usize = 57;
pub const CARD_SEARCH_LABEL: usize = 58;
pub const CARD_ATTACK_LABEL: usize = 59;
pub const CARD_DEFEND_LABEL: usize = 60;
pub const CARD_SKILL_LABEL: usize = 61;
pub const KIND_MOVE_LABEL: usize = 62;
pub const KIND_GATHER_LABEL: usize = 63;
pub const KIND_SEARCH_LABEL: usize = 64;
pub const KIND_ATTACK_LABEL: usize = 65;
pub const KIND_DEFEND_LABEL: usize = 66;
pub const KIND_SKILL_LABEL: usize = 67;
pub const EMPTY_SLOT_LABEL: usize = 68;
pub const EFFECT_MOVE_LABEL: usize = 69;
pub const EFFECT_GATHER_LABEL: usize = 70;
pub const RETURN_FOOD_WARNING_LABEL: usize = 71;
pub const DISCARD_BUTTON_LABEL: usize = 72;
pub const CONFIRM_DISCARD_LABEL: usize = 73;
pub const CONFIRM_BUTTON_LABEL: usize = 74;
pub const DEPART_BLOCK_EMPTY_LABEL: usize = 75;
pub const DEPART_BLOCK_FOOD_LABEL: usize = 76;
pub const DEPART_BLOCK_CAPACITY_LABEL: usize = 77;
pub const RES_FOREST_INFO_LABEL: usize = 78;
pub const RES_STONE_INFO_LABEL: usize = 79;
pub const RES_BERRY_INFO_LABEL: usize = 80;
pub const RES_ENEMY_INFO_LABEL: usize = 81;
pub const RES_RUIN_INFO_LABEL: usize = 82;
pub const NO_RECIPES_LABEL: usize = 83;

/// Width in pixels of a label bitmap: a little-endian 16-bit number in its first two
/// bytes (0 for a shorter bitmap).
pub open spec fn bitmap_width(b: Seq<u8>) -> int {
    if b.len() < 2 { 0 } else { b[0] as int + 256 * (b[1] as int) }
}

/// Height in pixels of a label bitmap: the 16-bit number in its third and fourth bytes.
pub open spec fn bitmap_height(b: Seq<u8>) -> int {
    if b.len() < 4 { 0 } else { b[2] as int + 256 * (b[3] as int) }
}

/// A bitmap that can be drawn: empty, or a header and one alpha byte per pixel.
pub open spec fn bitmap_ok(b: Seq<u8>) -> bool {
    b.len() < 4 || b.len() >= 4 + bitmap_width(b) * bitmap_height(b)
}

/// Opacity of the label pixel at `row`, `col`.
pub open spec fn bitmap_alpha(b: Seq<u8>, row: int, col: int) -> int {
    b[4 + row * bitmap_width(b) + col] as int
}

/// Top left corner of a label bitmap drawn centered at `(cx, cy)`, held at the window's
/// left and top edges.
pub open spec fn label_corner(b: Seq<u8>, cx: int, cy: int) -> (int, int) {
    let w = bitmap_width(b);
    let h = bitmap_height(b);
    (if cx >= w / 2 { cx - w / 2 } else { 0 }, if cy >= h / 2 { cy - h / 2 } else { 0 })
}

/// The label drawn centered at `(cx, cy)` blends a pixel over buffer index `i`: its
/// bitmap has a pixel there that is more than faintly opaque.
pub open spec fn label_pixel(b: Seq<u8>, cx: int, cy: int, i: int) -> bool {
    let (x, y) = label_corner(b, cx, cy);
    &&& b.len() >= 4
    &&& in_box(i, x, y, x + bitmap_width(b), y + bitmap_height(b))
    &&& bitmap_alpha(b, row_of(i) - y, col_of(i) - x) > 8
}

/// The color at buffer index `i` once the label is drawn in `color` centered at
/// `(cx, cy)` over a pixel of color `under`.
pub open spec fn label_over(b: Seq<u8>, cx: int, cy: int, color: u32, under: u32, i: int) -> u32 {
    let (x, y) = label_corner(b, cx, cy);
    if label_pixel(b, cx, cy, i) {
        blend(color, under, bitmap_alpha(b, row_of(i) - y, col_of(i) - x) as u32)
    } else {
        under
    }
}

/// Whether a bitmap can be given to a label (see `bitmap_ok`).
pub fn is_bitmap_ok(bitmap: &[u8]) -> (r: bool)
    ensures
        r == bitmap_ok(bitmap@),
{
    if bitmap.len() < 4 {
        return true;
    }
    let w = label_width(bitmap);
    let h = label_height(bitmap);
    proof {
        assert(w * h <= 65535 * 65535) by (nonlinear_arith) requires w <= 65535, h <= 65535;
    }
    bitmap.len() - 4 >= w * h
}

/// Width in pixels of a label bitmap.
pub fn label_width(label: &[u8]) -> (w: usize)
    ensures
        w == bitmap_width(label@),
{
    if label.len() < 2 {
        0
    } else {
        label[0] as usize + 256 * (label[1] as usize)
    }
}

fn label_height(label: &[u8]) -> (h: usize)
    ensures
        h == bitmap_height(label@),
{
    if label.len() < 4 {
        0
    } else {
        label[2] as usize + 256 * (label[3] as usize)
    }
}

impl Renderer {
    /// Width in pixels of the label numbered `label`.
    pub fn label_width_of(&self, label: usize) -> (w: usize)
        requires
            self.wf(),
            label < LABEL_COUNT,
        ensures
            w == bitmap_width(self.label_data()[label as int]),
            w < 65536,
    {
        label_width(self.label_bitmap(label))
    }

    /// Draws the label numbered `label` in `color`, centered at `(center_x, center_y)`
    /// (its left and top edges held at the window's edge), each pixel blended with the
    /// opacity of the bitmap where that is above 8; an empty bitmap draws nothing.
    pub fn draw_label(&mut self, label: usize, center_x: usize, center_y: usize, color: u32)
        requires
            old(self).wf(),
            label < LABEL_COUNT,
            center_x + 65536 <= usize::MAX,
            center_y + 65536 <= usize::MAX,
        ensures
            final(self).wf(),
            final(self).label_data() == old(self).label_data(),
            forall|i: int|
                0 <= i < PIXELS ==> #[trigger] final(self).frame()[i] == label_over(
                    old(self).label_data()[label as int],
                    center_x as int,
                    center_y as int,
                    color,
                    old(self).frame()[i],
                    i,
                ),
    {
        let ghost b = self.label_data()[label as int];
        let ghost before = self.frame();
        let len = self.label_bitmap(label).len();
        if len < 4 {
            return;
        }
        let width = label_width(self.label_bitmap(label));
        let height = label_height(self.label_bitmap(label));
        let x = if center_x >= width / 2 { center_x - width / 2 } else { 0 };
        let y = if center_y >= height / 2 { center_y - height / 2 } else { 0 };
        proof {
            assert(width * height <= 65535 * 65535) by (nonlinear_arith) requires width <= 65535, height <= 65535;
        }
        let mut row: usize = 0;
        while row < height
            invariant
                row <= height,
                b == self.label_data()[label as int],
                b.len() == len,
                len >= 4,
                width == bitmap_width(b),
                height == bitmap_height(b),
                width <= 65535,
                height <= 65535,
                len >= 4 + width * height,
                x == (if center_x >= width / 2 { center_x - width / 2 } else { 0 }),
                y == (if center_y >= height / 2 { center_y - height / 2 } else { 0 }),
                center_x + 65536 <= usize::MAX,
                center_y + 65536 <= usize::MAX,
                label < LABEL_COUNT,
                self.wf(),
                self.label_data() == old(self).label_data(),
                before == old(self).frame(),
                forall|i: int|
                    0 <= i < PIXELS ==> #[trigger] self.frame()[i] == if label_pixel(b, center_x as int, center_y as int, i)
                        && row_of(i) - y < row {
                        blend(color, before[i], bitmap_alpha(b, row_of(i) - y, col_of(i) - x) as u32)
                    } else {
                        before[i]
                    },
            decreases height - row,
        {
            let mut col: usize = 0;
            while col < width
                invariant
                    row < height,
                    col <= width,
                    b == self.label_data()[label as int],
                    b.len() == len,
                    len >= 4,
                    width == bitmap_width(b),
                    height == bitmap_height(b),
                    width <= 65535,
                    height <= 65535,
                    len >= 4 + width * height,
                    x == (if center_x >= width / 2 { center_x - width / 2 } else { 0 }),
                    y == (if center_y >= height / 2 { center_y - height / 2 } else { 0 }),
                    center_x + 65536 <= usize::MAX,
                    center_y + 65536 <= usize::MAX,
                    label < LABEL_COUNT,
                    self.wf(),
                    self.label_data() == old(self).label_data(),
                    forall|i: int|
                        0 <= i < PIXELS ==> #[trigger] self.frame()[i] == if label_pixel(b, center_x as int, center_y as int, i)
                            && (row_of(i) - y < row || (row_of(i) - y == row && col_of(i) - x < col)) {
                            blend(color, before[i], bitmap_alpha(b, row_of(i) - y, col_of(i) - x) as u32)
                        } else {
                            before[i]
                        },
                decreases width - col,
            {
                proof {
                    assert(row * width + col < width * height) by (nonlinear_arith)
                        requires row < height, col < width;
                }
                let alpha = self.label_bitmap(label)[4 + row * width + col] as u32;
                if alpha > 8 {
                    let ghost mid = self.frame();
                    self.blend_pixel(x + col, y + row, color, alpha);
                    proof {
                        if x + col < WIDTH && y + row < HEIGHT {
                            crate::frame::lemma_pixel_index((x + col) as int, (y + row) as int);
                        }
                    }
                }
                col = col + 1;
            }
            row = row + 1;
        }
    }
}

/// The label saying what a building is for.
#[verifier::allow_in_spec]
pub fn building_usage_label(kind: BuildingKind) -> (l: usize)
    ensures
        l < LABEL_COUNT,
    returns
        (match kind {
            BuildingKind::Campfire => USE_SMALL_STOREHOUSE_LABEL,
            BuildingKind::Storehouse => USE_STOREHOUSE_LABEL,
            BuildingKind::Workbench => USE_WORKBENCH_LABEL,
            BuildingKind::ResearchTable => USE_RESEARCH_TABLE_LABEL,
            BuildingKind::TrainingDummy => USE_TRAINING_DUMMY_LABEL,
        }),
{
    match kind {
        BuildingKind::Campfire => USE_SMALL_STOREHOUSE_LABEL,
        BuildingKind::Storehouse => USE_STOREHOUSE_LABEL,
        BuildingKind::Workbench => USE_WORKBENCH_LABEL,
        BuildingKind::ResearchTable => USE_RESEARCH_TABLE_LABEL,
        BuildingKind::TrainingDummy => USE_TRAINING_DUMMY_LABEL,
    }
}

/// The name label of a card kind.
#[verifier::allow_in_spec]
pub fn card_name_label(kind: CardKind) -> (l: usize)
    ensures
        l < LABEL_COUNT,
    returns
        (match kind {
            CardKind::Move => CARD_MOVE_LABEL,
            CardKind::Gather => CARD_GATHER_LABEL,
            CardKind::Search => CARD_SEARCH_LABEL,
            CardKind::Attack => CARD_ATTACK_LABEL,
            CardKind::Defend => CARD_DEFEND_LABEL,
            CardKind::Skill => CARD_SKILL_LABEL,
        }),
{
    match kind {
        CardKind::Move => CARD_MOVE_LABEL,
        CardKind::Gather => CARD_GATHER_LABEL,
        CardKind::Search => CARD_SEARCH_LABEL,
        CardKind::Attack => CARD_ATTACK_LABEL,
        CardKind::Defend => CARD_DEFEND_LABEL,
        CardKind::Skill => CARD_SKILL_LABEL,
    }
}

/// The kind label of a card kind.
#[verifier::allow_in_spec]
pub fn card_kind_label(kind: CardKind) -> (l: usize)
    ensures
        l < LABEL_COUNT,
    returns
        (match kind {
            CardKind::Move => KIND_MOVE_LABEL,
            CardKind::Gather => KIND_GATHER_LABEL,
            CardKind::Search => KIND_SEARCH_LABEL,
            CardKind::Attack => KIND_ATTACK_LABEL,
            CardKind::Defend => KIND_DEFEND_LABEL,
            CardKind::Skill => KIND_SKILL_LABEL,
        }),
{
    match kind {
        CardKind::Move => KIND_MOVE_LABEL,
        CardKind::Gather => KIND_GATHER_LABEL,
        CardKind::Search => KIND_SEARCH_LABEL,
        CardKind::Attack => KIND_ATTACK_LABEL,
        CardKind::Defend => KIND_DEFEND_LABEL,
        CardKind::Skill => KIND_SKILL_LABEL,
    }
}

/// The label describing what a card does: gathering for gather cards, movement for the
/// others.
pub fn card_effect_label(kind: CardKind) -> (l: usize)
    ensures
        l == if kind == CardKind::Gather { EFFECT_GATHER_LABEL } else { EFFECT_MOVE_LABEL },
{
    match kind {
        CardKind::Gather => EFFECT_GATHER_LABEL,
        _ => EFFECT_MOVE_LABEL,
    }
}

/// The label explaining why the expedition cannot depart.
#[verifier::allow_in_spec]
pub fn depart_block_label(reason: DepartBlockReason) -> (l: usize)
    ensures
    returns
        (match reason {
            DepartBlockReason::EmptyDeck => DEPART_BLOCK_EMPTY_LABEL,
            DepartBlockReason::Food => DEPART_BLOCK_FOOD_LABEL,
            DepartBlockReason::Capacity => DEPART_BLOCK_CAPACITY_LABEL,
        }),
{
    match reason {
        DepartBlockReason::EmptyDeck => DEPART_BLOCK_EMPTY_LABEL,
        DepartBlockReason::Food => DEPART_BLOCK_FOOD_LABEL,
        DepartBlockReason::Capacity => DEPART_BLOCK_CAPACITY_LABEL,
    }
}

/// The label describing a material of the storage (0 wood, 1 stone, 2 food).
pub fn material_description_label(index: usize) -> (l: usize)
    ensures
        l == if index == 0 { WOOD_DESC_LABEL } else if index == 1 { STONE_DESC_LABEL } else { FOOD_DESC_LABEL },
{
    if index == 0 {
        WOOD_DESC_LABEL
    } else if index == 1 {
        STONE_DESC_LABEL
    } else {
        FOOD_DESC_LABEL
    }
}

/// The label describing a map tile, if it holds anything.
pub fn tile_info_label(tile: Tile) -> (l: Option<usize>)
    ensures
        l == match tile {
            Tile::Forest => Some(RES_FOREST_INFO_LABEL),
            Tile::Stone => Some(RES_STONE_INFO_LABEL),
            Tile::Berry => Some(RES_BERRY_INFO_LABEL),
            Tile::Enemy => Some(RES_ENEMY_INFO_LABEL),
            Tile::Ruin => Some(RES_RUIN_INFO_LABEL),
            Tile::Ground => None,
        },
{
    match tile {
        Tile::Forest => Some(RES_FOREST_INFO_LABEL),
        Tile::Stone => Some(RES_STONE_INFO_LABEL),
        Tile::Berry => Some(RES_BERRY_INFO_LABEL),
        Tile::Enemy => Some(RES_ENEMY_INFO_LABEL),
        Tile::Ruin => Some(RES_RUIN_INFO_LABEL),
        Tile::Ground => None,
    }
}

/// The ASCII lower-case form of a character.
pub open spec fn lower(c: char) -> char {
    if 'A' <= c <= 'Z' { ((c as u32) + 32) as char } else { c }
}

/// The text mentions "food", in any mix of upper and lower case.
pub open spec fn mentions_food(text: Seq<char>) -> bool {
    exists|k: int|
        0 <= k && k + 4 <= text.len() && lower(#[trigger] text[k]) == 'f' && lower(text[k + 1]) == 'o' && lower(
            text[k + 2],
        ) == 'o' && lower(text[k + 3]) == 'd'
}

fn is_letter(c: char, small: char, capital: char) -> (r: bool)
    requires
        'a' <= small <= 'z',
        capital as u32 == small as u32 - 32,
    ensures
        r == (lower(c) == small),
{
    c == small || c == capital
}

/// The game-over label: starvation when the message mentions food, else the loss of the
/// characters.
pub fn death_label(message: &str) -> (l: usize)
    ensures
        l == if mentions_food(message@) { DEATH_FOOD_LABEL } else { DEATH_CHARACTERS_LABEL },
{
    let mut chars: Vec<char> = Vec::new();
    for c in it: message.chars()
        invariant
            it.seq() == message@,
            chars@ == it.seq().take(it.index()),
    {
        chars.push(c);
    }
    assert(chars@ =~= message@);
    let n = chars.len();
    if n < 4 {
        return DEATH_CHARACTERS_LABEL;
    }
    let mut k: usize = 0;
    while k <= n - 4
        invariant
            n >= 4,
            n == chars.len(),
            chars@ == message@,
            forall|j: int|
                0 <= j < k && j + 4 <= n ==> !(lower(#[trigger] message@[j]) == 'f' && lower(message@[j + 1]) == 'o'
                    && lower(message@[j + 2]) == 'o' && lower(message@[j + 3]) == 'd'),
        decreases n - k,
    {
        if is_letter(chars[k], 'f', 'F') && is_letter(chars[k + 1], 'o', 'O') && is_letter(chars[k + 2], 'o', 'O')
            && is_letter(chars[k + 3], 'd', 'D') {
            return DEATH_FOOD_LABEL;
        }
        k = k + 1;
    }
    DEATH_CHARACTERS_LABEL
}

} // verus!
