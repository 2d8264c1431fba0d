use vstd::prelude::*;

use crate::card::{food_cost_of, is_gather_scrap, is_move_step, Card, CardKind};
use crate::data::{affords, material, total_of, BuildingKind};
use crate::expedition::ExpeditionState;
use crate::frame::{
    in_box, row_of, PIXELS, BASE_VIEWPORT_HEIGHT, BASE_VIEWPORT_WIDTH, EXPEDITION_HAND_Y, EXPEDITION_VIEWPORT_HEIGHT, HEIGHT, WIDTH,
};
use crate::game::{base_extent, base_gap, base_tile, building_cost, cost_of, has_kind, Game, Screen, MAX_PREP_CARDS};
use crate::icons::{player_marker_px, berry_icon_px, building_icon_px, clip_paint, dot, enemy_icon_px, map_clip, ruin_icon_px, stone_icon_px, tree_icon_px};
use crate::input::{base_dialog_open, first_hit, hand_hit, lemma_first_hit, lemma_first_hit_found, offer_hit, tile_under};
use crate::labels::{
    self, building_usage_label, card_effect_label, card_name_label, depart_block_label, label_over, material_description_label, tile_info_label, EFFECT_GATHER_LABEL, EFFECT_MOVE_LABEL, RES_BERRY_INFO_LABEL,
    RES_ENEMY_INFO_LABEL, RES_FOREST_INFO_LABEL, RES_RUIN_INFO_LABEL, RES_STONE_INFO_LABEL,
};
use crate::map::{ExplorationMap, Tile};
use crate::render::Renderer;
use crate::text::{append_count, append_int, decimal};
use crate::font::{text_covers, text_fit};
use crate::widgets::{arrow_button_px, expedition_card_px, footer_px, menu_button_px, warning_icon_px, category_button_px, resource_icon_px, prep_card_px, cost_part_px, disabled_button_px, hovers, paint, side_button_px, stat_row_px, text_px, tooltip_over, BLACK, CARD, MUTED_TEXT, PANEL, TEXT, WARNING};

verus! {

/// Color of a base tile.
pub const BASE: u32 = 0x2f5d50;
/// Color of the ground of a map tile.
pub const GROUND: u32 = 0x33443a;

/// How far the figures on the expedition map sway at the current moment: the player's
/// vertical offset in pixels, and each enemy's by tile index (row after row).
pub struct Motion {
    pub player_bob: i32,
    pub enemy_bobs: Vec<i32>,
}

/// A game whose screen positions stay within `i32` when drawn: cameras inside their
/// scrollable ranges, a map no larger than about two billion pixels a side, and bounded
/// hand and deck sizes.
pub open spec fn drawable(g: Game) -> bool {
    &&& g.wf()
    &&& 0 <= g.base.camera_x <= 2_100_000_000
    &&& 0 <= g.base.camera_y <= 2_100_000_000
    &&& g.prep_deck.len() <= 8_000_000
    &&& (g.expedition matches Some(e) ==> {
        &&& 0 <= e.camera_x <= 2_100_000_000
        &&& 0 <= e.camera_y <= 2_100_000_000
        &&& e.content_size_spec().0 <= 2_100_000_000
        &&& e.content_size_spec().1 <= 2_100_000_000
        &&& e.hand.len() <= 1_000_000
    })
}

/// Whether building `k` of `bs` stands with its corner on tile `(x, y)`.
pub open spec fn anchored_at(bs: Seq<crate::data::Building>, x: i32, y: i32) -> spec_fn(int) -> bool {
    |k: int| bs[k].x == x && bs[k].y == y
}

/// The building whose information shows under the pointer on the base screen: none while a
/// building is being placed or a dialog that hides the map is open; otherwise the first
/// building with its corner on the tile under the pointer.
pub open spec fn hovered_building(g: Game, mx: usize, my: usize) -> Option<int> {
    if g.selected_building is Some || g.show_storage_dialog || g.show_build_menu || g.show_expedition_prep {
        None
    } else {
        match crate::input::base_tile_under(g, mx, my) {
            None => None,
            Some(t) => first_hit(g.base.buildings.len() as int, anchored_at(g.base.buildings@, t.0, t.1)),
        }
    }
}

/// The color at buffer index `i` once the character dialog is drawn over `under`, with
/// the label bitmaps `l`: the base view dimmed, the panel and its title, the first
/// character's name and stats, and the close button.
pub open spec fn character_dialog_px(l: Seq<Seq<u8>>, g: Game, mx: int, my: int, under: u32, i: int) -> u32 {
    let (px, py) = (260int, 198int);
    let panel = paint(paint(paint(under, i, 0, 0, 1000, 696, 0x11151c), i, px, py, 480, 300, PANEL), i, px + 4, py + 4, 472, 292, 0x252d3a);
    let titled = label_over(l[labels::CHARACTER_TITLE_LABEL as int], px + 240, py + 42, TEXT, panel, i);
    let body = if g.characters.len() > 0 {
        let c = g.characters@[0];
        let named = text_px(c.name@, px + 94, py + 84, 2, TEXT, titled, i);
        let hp = stat_row_px(l[labels::HP_LABEL as int], decimal(c.hp as int) + "/"@ + decimal(c.max_hp as int), px + 94, py + 132, named, i);
        let attack = stat_row_px(l[labels::ATTACK_STAT_LABEL as int], decimal(c.attack as int), px + 94, py + 172, hp, i);
        let defense = stat_row_px(l[labels::DEFENSE_STAT_LABEL as int], decimal(c.defense as int), px + 94, py + 212, attack, i);
        stat_row_px(l[labels::SPEED_STAT_LABEL as int], decimal(c.speed as int), px + 282, py + 132, defense, i)
    } else {
        titled
    };
    side_button_px(l[labels::CLOSE_BUTTON_LABEL as int], px + 188, py + 246, 104, 40, hovers(mx, my, px + 188, py + 246, 104, 40), body, i)
}

/// The color at buffer index `i` once the crafting dialog is drawn over `under`: the base
/// view dimmed, the panel and its title, the empty recipe list and the close button.
pub open spec fn crafting_dialog_px(l: Seq<Seq<u8>>, mx: int, my: int, under: u32, i: int) -> u32 {
    let (px, py) = (260int, 218int);
    let panel = paint(paint(paint(under, i, 0, 0, 1000, 696, 0x11151c), i, px, py, 480, 260, PANEL), i, px + 4, py + 4, 472, 252, 0x252d3a);
    let titled = label_over(l[labels::CRAFT_TITLE_LABEL as int], px + 240, py + 42, TEXT, panel, i);
    let list = label_over(l[labels::NO_RECIPES_LABEL as int], px + 240, py + 128, MUTED_TEXT, paint(titled, i, px + 58, py + 92, 364, 72, 0x1c2330), i);
    side_button_px(l[labels::CLOSE_BUTTON_LABEL as int], px + 188, py + 206, 104, 40, hovers(mx, my, px + 188, py + 206, 104, 40), list, i)
}

/// The color at buffer index `i` once the button for building `kind` is drawn over `under`:
/// a side button when the stock covers the building's cost, a greyed-out one otherwise.
pub open spec fn building_button_px(l: Seq<u8>, g: Game, x: int, y: int, w: int, h: int, kind: BuildingKind, mx: int, my: int, under: u32, i: int) -> u32 {
    if affords(g.resources, cost_of(kind)) {
        side_button_px(l, x, y, w, h, hovers(mx, my, x, y, w, h), under, i)
    } else {
        disabled_button_px(l, x, y, w, h, under, i)
    }
}

/// The color of the food line of the preparation dialog: red when the deck costs more
/// food than the stock holds or would leave less than 3.
pub open spec fn prep_food_color(g: Game) -> u32 {
    let cost = food_cost_of(g.prep_deck@);
    if g.resources.food < cost || g.resources.food - cost < 3 { 0xe06c75 } else { TEXT }
}

/// The color at buffer index `i` once the food line of the preparation dialog at
/// `(px, py)` is drawn over `under`: the stock and the deck's cost, and a warning when
/// less than 3 food would be left for the return.
pub open spec fn prep_food_px(l: Seq<Seq<u8>>, g: Game, px: int, py: int, under: u32, i: int) -> u32 {
    let cost = food_cost_of(g.prep_deck@);
    let food = g.resources.food as int;
    let color = prep_food_color(g);
    let text = ": "@ + decimal(food) + " [-"@ + decimal(cost) + "]"@;
    let line = text_px(text, px + 94, py + 381, 2, color, label_over(l[labels::FOOD_LABEL as int], px + 60, py + 388, color, paint(under, i, px + 24, py + 368, 310, 40, 0x1c2330), i), i);
    if food >= cost && food - cost < 3 {
        label_over(l[labels::RETURN_FOOD_WARNING_LABEL as int], px + 179, py + 360, color, paint(line, i, px + 24, py + 350, 310, 18, 0x1c2330), i)
    } else {
        line
    }
}

/// Where the next part of a cost goes: 56 pixels further for a positive amount.
pub open spec fn cost_advance(x: int, amount: int) -> int {
    if amount > 0 { x + 56 } else { x }
}

/// The color at buffer index `i` once the details of building `kind` are drawn at
/// `(x, y)` over `under`: its cost (each material against the stock), its footprint and
/// what it is for.
pub open spec fn building_details_px(l: Seq<Seq<u8>>, g: Game, kind: BuildingKind, x: int, y: int, under: u32, i: int) -> u32 {
    let cost = cost_of(kind);
    let x_wood = x + 76;
    let x_stone = cost_advance(x_wood, cost.wood as int);
    let x_food = cost_advance(x_stone, cost.stone as int);
    let head = label_over(l[labels::COST_LABEL as int], x + 34, y + 14, TEXT, paint(under, i, x, y, 460, 46, 0x1c2330), i);
    let wood = cost_part_px(0, cost.wood as int, g.resources.wood as int, x_wood, y + 14, head, i);
    let stone = cost_part_px(1, cost.stone as int, g.resources.stone as int, x_stone, y + 14, wood, i);
    let food = cost_part_px(2, cost.food as int, g.resources.food as int, x_food, y + 14, stone, i);
    let footprint = label_over(
        l[labels::FOOTPRINT_1X1_LABEL as int],
        x + 354,
        y + 14,
        TEXT,
        label_over(l[labels::FOOTPRINT_LABEL as int], x + 292, y + 14, TEXT, food, i),
        i,
    );
    label_over(
        l[building_usage_label(kind) as int],
        x + 180,
        y + 34,
        MUTED_TEXT,
        label_over(l[labels::USAGE_LABEL as int], x + 34, y + 34, MUTED_TEXT, footprint, i),
        i,
    )
}

/// The building the build menu offers in category `c`: the storehouse in the first, the
/// workbench otherwise, with the label of its button.
pub open spec fn offered_building(c: usize) -> (BuildingKind, usize) {
    if c == 0 { (BuildingKind::Campfire, labels::SMALL_STOREHOUSE_LABEL) } else { (BuildingKind::Workbench, labels::WORKBENCH_LABEL) }
}

/// The color at buffer index `i` once the build menu is drawn over `under`: the base view
/// dimmed, the panel and its title, the two category tabs, the button of the offered
/// building and the cancel button, then the building's details while the pointer is on
/// its button, a hint otherwise.
pub open spec fn build_menu_px(l: Seq<Seq<u8>>, g: Game, mx: int, my: int, under: u32, i: int) -> u32 {
    let (px, py) = (250int, 188int);
    let (kind, label) = offered_building(g.build_menu_category);
    let panel = paint(paint(paint(under, i, 0, 0, 1000, 696, 0x11151c), i, px, py, 500, 300, PANEL), i, px + 4, py + 4, 492, 292, 0x252d3a);
    let titled = label_over(l[labels::BUILD_MENU_TITLE_LABEL as int], px + 250, py + 40, TEXT, panel, i);
    let first = category_button_px(l[labels::STORAGE_BUTTON_LABEL as int], px + 40, py + 74, 124, 38, g.build_menu_category == 0, hovers(mx, my, px + 40, py + 74, 124, 38), titled, i);
    let second = category_button_px(l[labels::STATION_CATEGORY_LABEL as int], px + 40, py + 120, 124, 38, g.build_menu_category == 1, hovers(mx, my, px + 40, py + 120, 124, 38), first, i);
    let offer = building_button_px(l[label as int], g, px + 260, py + 90, 180, 40, kind, mx, my, second, i);
    let buttons = side_button_px(l[labels::CANCEL_BUTTON_LABEL as int], px + 260, py + 190, 180, 40, hovers(mx, my, px + 260, py + 190, 180, 40), offer, i);
    if hovers(mx, my, px + 260, py + 90, 180, 40) {
        building_details_px(l, g, kind, px + 20, py + 242, buttons, i)
    } else {
        text_px("HOVER A BUILDING TO VIEW DETAILS"@, px + 56, py + 252, 1, MUTED_TEXT, buttons, i)
    }
}

/// The color at buffer index `i` once the first `n` offered cards of the preparation
/// dialog (the movement card, then the gathering card) are drawn over `under`.
pub open spec fn offered_cards_px(l: Seq<Seq<u8>>, mx: int, my: int, n: int, under: u32, i: int) -> u32
    decreases n,
{
    if n <= 0 {
        under
    } else {
        let k = n - 1;
        let (kind, cost) = if k == 0 { (CardKind::Move, 0int) } else { (CardKind::Gather, 1int) };
        let x = 224 + (k % 3) * 126;
        let y = 232 + (k / 3) * 126;
        prep_card_px(l, kind, cost, x, y, 100, 104, hovers(mx, my, x, y, 100, 104), offered_cards_px(l, mx, my, n - 1, under, i), i)
    }
}

/// The color at buffer index `i` once the first `n` slots of the deck being prepared are
/// drawn over `under`: the name of the card in each filled slot, "empty" in the others.
pub open spec fn prep_slots_px(l: Seq<Seq<u8>>, deck: Seq<Card>, n: int, under: u32, i: int) -> u32
    decreases n,
{
    if n <= 0 {
        under
    } else {
        let k = n - 1;
        let y = 210 + k * 56;
        let framed = paint(prep_slots_px(l, deck, n - 1, under, i), i, 656, y, 120, 44, 0xd7c59a);
        if k < deck.len() {
            label_over(l[card_name_label(deck[k].kind) as int], 716, y + 22, BLACK, paint(framed, i, 660, y + 4, 112, 36, 0xc9b98e), i)
        } else {
            label_over(l[labels::EMPTY_SLOT_LABEL as int], 716, y + 22, MUTED_TEXT, paint(framed, i, 660, y + 4, 112, 36, 0x333a46), i)
        }
    }
}

/// The color at buffer index `i` once the preparation dialog is drawn over `under`: the
/// base view dimmed, the panel and its titles, the offered cards, the deck's slots, the
/// effect of the offered card under the pointer, the food line, the return button, and the
/// depart button, greyed out with the reason beside it under the pointer when the
/// expedition cannot depart.
pub open spec fn expedition_prep_px(l: Seq<Seq<u8>>, g: Game, mx: int, my: int, under: u32, i: int) -> u32 {
    let (px, py) = (184int, 136int);
    let panel = paint(paint(paint(under, i, 0, 0, 1000, 696, 0x11151c), i, px, py, 632, 424, PANEL), i, px + 4, py + 4, 624, 416, 0x252d3a);
    let titled = label_over(
        l[labels::PREP_CARRIED_CARDS_LABEL as int],
        px + 532,
        py + 66,
        TEXT,
        label_over(
            l[labels::PREP_AVAILABLE_CARDS_LABEL as int],
            px + 176,
            py + 66,
            TEXT,
            label_over(l[labels::EXPEDITION_PREP_TITLE_LABEL as int], px + 316, py + 34, TEXT, panel, i),
            i,
        ),
        i,
    );
    let slots = prep_slots_px(l, g.prep_deck@, MAX_PREP_CARDS as int, offered_cards_px(l, mx, my, 2, titled, i), i);
    let effect = match first_hit(2, offer_hit(mx, my)) {
        Some(k) => label_over(
            l[if k == 1 { EFFECT_GATHER_LABEL } else { EFFECT_MOVE_LABEL } as int],
            px + 219,
            py + 333,
            MUTED_TEXT,
            paint(slots, i, px + 24, py + 316, 390, 34, 0x1c2330),
            i,
        ),
        None => slots,
    };
    let buttons = side_button_px(
        l[labels::RETURN_BUTTON_LABEL as int],
        px + 396,
        py + 372,
        100,
        40,
        hovers(mx, my, px + 396, py + 372, 100, 40),
        prep_food_px(l, g, px, py, effect, i),
        i,
    );
    match g.block_reason() {
        Some(reason) => {
            let greyed = disabled_button_px(l[labels::DEPART_BUTTON_LABEL as int], px + 516, py + 372, 100, 40, buttons, i);
            if hovers(mx, my, px + 516, py + 372, 100, 40) {
                label_over(l[depart_block_label(reason) as int], px + 506, py + 351, WARNING, paint(greyed, i, px + 396, py + 336, 220, 30, 0x1c2330), i)
            } else {
                greyed
            }
        },
        None => side_button_px(l[labels::DEPART_BUTTON_LABEL as int], px + 516, py + 372, 100, 40, hovers(mx, my, px + 516, py + 372, 100, 40), buttons, i),
    }
}

/// The color at buffer index `i` once the storage row of material `index` is drawn at
/// `(x, y)` over `under`: the icon and stock, the minus button, the amount field (lit
/// while focused) with the amount to discard, the plus button, and the discard button,
/// greyed out unless the amount is positive and covered by the stock.
pub open spec fn storage_row_px(l: Seq<Seq<u8>>, g: Game, index: int, x: int, y: int, mx: int, my: int, under: u32, i: int) -> u32 {
    let amount = material(g.resources, index);
    let input_x = x + 158;
    let typed = g.storage_discard_inputs@[index] as int;
    let stock = text_px(decimal(amount), x + 58, y + 9, 2, TEXT, resource_icon_px(index, x, y, 36, under, i), i);
    let minus = arrow_button_px(x + 126, y + 2, 26, 32, false, hovers(mx, my, x + 126, y + 2, 26, 32), stock, i);
    let rim: u32 = if g.focused_storage_input == Some(index as usize) { 0xf0d060 } else { 0x607080 };
    let field = paint(paint(minus, i, input_x, y + 2, 46, 32, rim), i, input_x + 3, y + 5, 40, 26, 0x1c2330);
    let plus = arrow_button_px(input_x + 52, y + 2, 26, 32, true, hovers(mx, my, input_x + 52, y + 2, 26, 32), text_px(decimal(typed), input_x + 10, y + 10, 2, TEXT, field, i), i);
    if typed > 0 && typed <= amount {
        side_button_px(l[labels::DISCARD_BUTTON_LABEL as int], input_x + 124, y, 88, 36, hovers(mx, my, input_x + 124, y, 88, 36), plus, i)
    } else {
        disabled_button_px(l[labels::DISCARD_BUTTON_LABEL as int], input_x + 124, y, 88, 36, plus, i)
    }
}

/// The color at buffer index `i` once the first `n` rows of the storage dialog, showing
/// the materials `rows`, are drawn over `under`.
pub open spec fn storage_rows_px(l: Seq<Seq<u8>>, g: Game, rows: Seq<usize>, mx: int, my: int, n: int, under: u32, i: int) -> u32
    decreases n,
{
    if n <= 0 {
        under
    } else {
        storage_row_px(l, g, rows[n - 1] as int, 272, 250 + (n - 1) * 56, mx, my, storage_rows_px(l, g, rows, mx, my, n - 1, under, i), i)
    }
}

/// The label describing material `k`.
pub open spec fn description_of(k: int) -> usize {
    if k == 0 { labels::WOOD_DESC_LABEL } else if k == 1 { labels::STONE_DESC_LABEL } else { labels::FOOD_DESC_LABEL }
}

/// The color at buffer index `i` once the descriptions of the first `n` rows `rows` whose
/// icon is under the pointer are drawn over `under`.
pub open spec fn storage_descriptions_px(l: Seq<Seq<u8>>, rows: Seq<usize>, mx: int, my: int, n: int, under: u32, i: int) -> u32
    decreases n,
{
    if n <= 0 {
        under
    } else {
        let prev = storage_descriptions_px(l, rows, mx, my, n - 1, under, i);
        if hovers(mx, my, 272, 238 + (n - 1) * 56, 36, 36) {
            label_over(l[description_of(rows[n - 1] as int) as int], 500, 640, MUTED_TEXT, paint(prev, i, 40, 624, 920, 32, 0x1c2330), i)
        } else {
            prev
        }
    }
}

/// The color at buffer index `i` once the storage dialog is drawn over `under`: the base
/// view dimmed, the panel and its title, a row for each material shown, the stock against
/// the capacity, the close button, the confirmation of a pending discard, and the
/// description of the material whose icon is under the pointer.
pub open spec fn storage_dialog_px(l: Seq<Seq<u8>>, g: Game, mx: int, my: int, under: u32, i: int) -> u32 {
    let (px, py) = (200int, 158int);
    let rows = crate::input::storage_rows(g);
    let panel = paint(paint(paint(under, i, 0, 0, 1000, 696, 0x11151c), i, px, py, 600, 380, PANEL), i, px + 4, py + 4, 592, 372, 0x252d3a);
    let titled = label_over(l[labels::STORAGE_TITLE_LABEL as int], px + 300, py + 40, TEXT, panel, i);
    let listed = storage_rows_px(l, g, rows, mx, my, rows.len() as int, titled, i);
    let capacity = stat_row_px(
        l[labels::CAPACITY_LABEL as int],
        decimal(total_of(g.resources)) + "/"@ + decimal(g.base.storage_capacity as int),
        px + 74,
        py + 284,
        listed,
        i,
    );
    let closed = side_button_px(l[labels::CLOSE_BUTTON_LABEL as int], px + 452, py + 316, 96, 40, hovers(mx, my, px + 452, py + 316, 96, 40), capacity, i);
    let asked = match g.pending_storage_discard {
        Some(k) => text_px(
            decimal(g.storage_discard_inputs@[k as int] as int),
            px + 292,
            py + 329,
            1,
            WARNING,
            side_button_px(
                l[labels::CONFIRM_BUTTON_LABEL as int],
                px + 338,
                py + 316,
                84,
                40,
                hovers(mx, my, px + 338, py + 316, 84, 40),
                label_over(l[labels::CONFIRM_DISCARD_LABEL as int], px + 250, py + 337, WARNING, paint(closed, i, px + 138, py + 318, 292, 38, 0x1c2330), i),
                i,
            ),
            i,
        ),
        None => closed,
    };
    storage_descriptions_px(l, rows, mx, my, rows.len() as int, asked, i)
}

/// The color at buffer index `i` once a button that may be greyed out is drawn: a side
/// button when `enabled`, lit under the pointer at `(mx, my)`, a greyed-out one otherwise.
pub open spec fn switch_button_px(l: Seq<u8>, enabled: bool, x: int, y: int, w: int, h: int, mx: int, my: int, under: u32, i: int) -> u32 {
    if enabled {
        side_button_px(l, x, y, w, h, hovers(mx, my, x, y, w, h), under, i)
    } else {
        disabled_button_px(l, x, y, w, h, under, i)
    }
}

/// The color at buffer index `i` once the main menu is drawn over `under`: the panel with
/// the title and subtitle, the new game, load and quit buttons, and the message bar.
pub open spec fn menu_px(l: Seq<Seq<u8>>, g: Game, mx: int, my: int, under: u32, i: int) -> u32 {
    let (px, py) = (410int, 170int);
    let panel = paint(paint(under, i, 0, 0, 1280, 720, 0x1a2028), i, px, py, 460, 380, PANEL);
    let titled = text_px("BASE AND CARD EXPEDITION DEMO"@, px + 68, py + 110, 2, MUTED_TEXT, text_px("GRUNTIA"@, px + 46, py + 42, 6, TEXT, panel, i), i);
    let first = menu_button_px(l[labels::NEW_GAME_LABEL as int], px + 90, py + 154, 280, 54, hovers(mx, my, px + 90, py + 154, 280, 54), titled, i);
    let second = menu_button_px(l[labels::LOAD_GAME_LABEL as int], px + 90, py + 224, 280, 54, hovers(mx, my, px + 90, py + 224, 280, 54), first, i);
    let third = menu_button_px(l[labels::QUIT_LABEL as int], px + 90, py + 294, 280, 54, hovers(mx, my, px + 90, py + 294, 280, 54), second, i);
    footer_px(g.message@, third, i)
}

/// The color at buffer index `i` once the game-over screen is drawn over `under`: the
/// panel with the title and the cause of the loss, the load (greyed out without a save),
/// restart and main menu buttons, and the message bar.
pub open spec fn game_over_px(l: Seq<Seq<u8>>, g: Game, mx: int, my: int, save_exists: bool, under: u32, i: int) -> u32 {
    let (px, py) = (340int, 210int);
    let death = if labels::mentions_food(g.message@) { labels::DEATH_FOOD_LABEL } else { labels::DEATH_CHARACTERS_LABEL };
    let panel = paint(paint(under, i, 0, 0, 1280, 720, 0x22181b), i, px, py, 600, 300, 0x5c2731);
    let told = label_over(l[death as int], 640, py + 122, WARNING, text_px("CAMPAIGN FAILED"@, px + 110, py + 42, 3, TEXT, panel, i), i);
    let load = switch_button_px(l[labels::LOAD_SAVE_BUTTON_LABEL as int], save_exists, 418, py + 178, 132, 44, mx, my, told, i);
    let restart = side_button_px(l[labels::RESTART_BUTTON_LABEL as int], 574, py + 178, 132, 44, hovers(mx, my, 574, py + 178, 132, 44), load, i);
    let menu = side_button_px(l[labels::MAIN_MENU_BUTTON_LABEL as int], 730, py + 178, 132, 44, hovers(mx, my, 730, py + 178, 132, 44), restart, i);
    footer_px(g.message@, menu, i)
}

/// The color at buffer index `i` once the side panel of the base screen is drawn over
/// `under`: the title, size, building count and stock against capacity (with a warning
/// over capacity), the character, storage, craft, build, research, explore, save, load
/// and quit buttons (craft, research and load greyed out without a workbench, a research
/// table or a save), the quit confirmation, the zoom level and the message bar.
pub open spec fn base_text_px(l: Seq<Seq<u8>>, g: Game, mx: int, my: int, save_exists: bool, under: u32, i: int) -> u32 {
    let px = 1028int;
    let size = decimal(g.base.size as int);
    let titled = label_over(l[labels::BASE_TITLE_LABEL as int], px + 52, 32, TEXT, under, i);
    let sized = stat_row_px(l[labels::SIZE_LABEL as int], size + "x"@ + size, px + 4, 92, titled, i);
    let counted = stat_row_px(l[labels::BUILDINGS_LABEL as int], decimal(g.base.buildings.len() as int), px + 4, 124, sized, i);
    let stock = stat_row_px(
        l[labels::CAPACITY_LABEL as int],
        decimal(total_of(g.resources)) + "/"@ + decimal(g.base.storage_capacity as int),
        px + 4,
        156,
        counted,
        i,
    );
    let character = side_button_px(l[labels::CHARACTER_BUTTON_LABEL as int], px, 224, 196, 38, hovers(mx, my, px, 224, 196, 38), stock, i);
    let storage = side_button_px(l[labels::STORAGE_BUTTON_LABEL as int], px, 274, 196, 38, hovers(mx, my, px, 274, 196, 38), character, i);
    let warned = if total_of(g.resources) > g.base.storage_capacity { warning_icon_px(px + 174, 280, storage, i) } else { storage };
    let craft = switch_button_px(l[labels::CRAFT_BUTTON_LABEL as int], has_kind(g.base.buildings@, BuildingKind::Workbench), px, 324, 196, 38, mx, my, warned, i);
    let build = side_button_px(l[labels::BUILD_BUTTON_LABEL as int], px, 374, 92, 38, hovers(mx, my, px, 374, 92, 38), craft, i);
    let research = switch_button_px(
        l[labels::RESEARCH_BUTTON_LABEL as int],
        has_kind(g.base.buildings@, BuildingKind::ResearchTable),
        px + 104,
        374,
        92,
        38,
        mx,
        my,
        build,
        i,
    );
    let explore = side_button_px(l[labels::EXPLORE_BUTTON_LABEL as int], px, 424, 196, 38, hovers(mx, my, px, 424, 196, 38), research, i);
    let save = side_button_px(l[labels::SAVE_BUTTON_LABEL as int], px, 474, 92, 38, hovers(mx, my, px, 474, 92, 38), explore, i);
    let load = switch_button_px(l[labels::LOAD_BUTTON_LABEL as int], save_exists, px + 104, 474, 92, 38, mx, my, save, i);
    let quit = side_button_px(l[labels::QUIT_LABEL as int], px, 524, 196, 38, hovers(mx, my, px, 524, 196, 38), load, i);
    let asked = if g.confirm_quit {
        let boxed = label_over(l[labels::CONFIRM_QUIT_LABEL as int], px + 98, 596, WARNING, paint(quit, i, px - 8, 574, 212, 86, 0x1c2330), i);
        let confirm = side_button_px(l[labels::CONFIRM_BUTTON_LABEL as int], px, 612, 92, 36, hovers(mx, my, px, 612, 92, 36), boxed, i);
        side_button_px(l[labels::CANCEL_BUTTON_LABEL as int], px + 104, 612, 92, 36, hovers(mx, my, px + 104, 612, 92, 36), confirm, i)
    } else {
        quit
    };
    let zoomed = text_px("ZOOM "@ + decimal(g.base.zoom_level + 1) + "x"@, 12, 678, 1, MUTED_TEXT, asked, i);
    footer_px(g.message@, zoomed, i)
}

/// The color at buffer index `i` once the expedition bag is drawn over `under`: the panel
/// with its title, the wood, stone and food carried, and the close button; nothing without
/// an expedition.
pub open spec fn expedition_bag_px(l: Seq<Seq<u8>>, g: Game, mx: int, my: int, under: u32, i: int) -> u32 {
    match g.expedition {
        None => under,
        Some(e) => {
            let px = 460int;
            let panel = paint(paint(under, i, px, 144, 360, 230, PANEL), i, px + 4, 148, 352, 222, 0x252d3a);
            let titled = label_over(l[labels::EXPEDITION_BAG_TITLE_LABEL as int], px + 180, 184, TEXT, panel, i);
            let wood = stat_row_px(l[labels::WOOD_LABEL as int], decimal(e.cargo.wood as int), px + 100, 228, titled, i);
            let stone = stat_row_px(l[labels::STONE_LABEL as int], decimal(e.cargo.stone as int), px + 100, 268, wood, i);
            let food = stat_row_px(l[labels::FOOD_LABEL as int], decimal(e.cargo.food as int), px + 100, 300, stone, i);
            side_button_px(l[labels::CLOSE_BUTTON_LABEL as int], px + 128, 324, 104, 40, hovers(mx, my, px + 128, 324, 104, 40), food, i)
        },
    }
}

/// The color at buffer index `i` once a loading screen is drawn over `under`: the
/// background `back`, a panel at `(px, py)` of `pw` × `ph` with the two lines `title` and
/// `line` at the given places, a bar of width `bar` at `(bx, by)` filled to `progress`
/// thousandths, and the message bar showing `message`.
pub open spec fn loading_px(
    back: u32,
    px: int,
    py: int,
    pw: int,
    ph: int,
    title: Seq<char>,
    tx: int,
    ty: int,
    line: Seq<char>,
    lx: int,
    ly: int,
    bx: int,
    by: int,
    bar: int,
    progress: int,
    message: Seq<char>,
    under: u32,
    i: int,
) -> u32 {
    let panel = paint(paint(under, i, 0, 0, 1280, 720, back), i, px, py, pw, ph, PANEL);
    let written = text_px(line, lx, ly, 2, MUTED_TEXT, text_px(title, tx, ty, 4, TEXT, panel, i), i);
    let barred = paint(paint(written, i, bx, by, bar, 12, 0x151a22), i, bx, by, bar * progress / 1000, 12, CARD);
    footer_px(message, barred, i)
}

/// The color at buffer index `i` once the HUD of the expedition screen is drawn over
/// `under`: the hint over the hand, the bag and return buttons, and the message bar.
pub open spec fn expedition_text_px(l: Seq<Seq<u8>>, g: Game, mx: int, my: int, under: u32, i: int) -> u32 {
    let hint = text_px("DRAG CARD TO PLAY"@, 28, 590, 1, TEXT, under, i);
    let bag = side_button_px(l[labels::BAG_BUTTON_LABEL as int], 1148, 616, 104, 40, hovers(mx, my, 1148, 616, 104, 40), hint, i);
    let back = side_button_px(l[labels::RETURN_BUTTON_LABEL as int], 1148, 662, 104, 40, hovers(mx, my, 1148, 662, 104, 40), bag, i);
    footer_px(g.message@, back, i)
}

/// The color at buffer index `i` once the placement preview is drawn over `under`: with a
/// building selected and the pointer on a base tile inside the view, the tile is tinted
/// red when taken, else in the building's color with its icon on top.
pub open spec fn building_preview_px(g: Game, mx: usize, my: usize, under: u32, i: int) -> u32 {
    match g.selected_building {
        None => under,
        Some(kind) => if mx >= 1000 || my >= 696 {
            under
        } else {
            match crate::input::base_tile_under(g, mx, my) {
                None => under,
                Some(t) => {
                    let z = g.base.zoom_level as int;
                    let tile = base_tile(z);
                    let step = tile + base_gap(z);
                    let ext = base_extent(g.base.size as int, z);
                    let x = crate::expedition::origin_axis(ext, 1000, g.base.camera_x as int) + t.0 * step;
                    let y = crate::expedition::origin_axis(ext, 696, g.base.camera_y as int) + t.1 * step;
                    let taken = crate::game::occupied(g.base.buildings@, t.0 as int, t.1 as int);
                    let clip = (0usize, 0usize, 1000usize, 696usize);
                    let tint = if taken { 0xb94b4bu32 } else { building_color_of(kind) };
                    let tinted = if in_box(i, x, y, x + tile, y + tile) && in_box(i, 0, 0, 1000, 696) {
                        crate::render::blend(tint, under, 104)
                    } else {
                        under
                    };
                    if taken { tinted } else { building_icon_px(kind, x, y, tile, clip, tinted, i) }
                },
            }
        },
    }
}

/// Screen position of the top left corner of map tile `(x, y)` of the expedition.
pub open spec fn map_corner(e: ExpeditionState, x: int, y: int) -> (int, int) {
    let t = 12 + e.zoom_level * 4;
    (
        crate::expedition::origin_axis(e.content_size_spec().0, 1280, e.camera_x as int) + x * t,
        crate::expedition::origin_axis(e.content_size_spec().1, 588, e.camera_y as int) + y * t,
    )
}

/// A figure's sway `bob` kept within one dot of a tile of side `tile`.
pub open spec fn sway_of(bob: int, tile: int) -> int {
    if bob < -dot(tile) { -dot(tile) } else if bob > dot(tile) { dot(tile) } else { bob }
}

/// The sway given to the enemy on map tile `(x, y)`: its entry of `motion`, none past the
/// end.
pub open spec fn enemy_bob(e: ExpeditionState, motion: Motion, x: int, y: int) -> int {
    let k = e.map.idx(x, y);
    if k < motion.enemy_bobs.len() { motion.enemy_bobs@[k] as int } else { 0 }
}

/// The color at buffer index `i` once map tile `(x, y)` is drawn over `under`: its ground,
/// then the icon of a forest, stone, berry or enemy tile.
pub open spec fn map_tile_px(e: ExpeditionState, motion: Motion, x: int, y: int, under: u32, i: int) -> u32 {
    let t = 12 + e.zoom_level * 4;
    let (cx, cy) = map_corner(e, x, y);
    let ground = clip_paint(under, i, cx, cy, t - 1, t - 1, GROUND, map_clip());
    match e.map.tile(x, y) {
        Tile::Forest => tree_icon_px(cx, cy, t, ground, i),
        Tile::Stone => stone_icon_px(cx, cy, t, ground, i),
        Tile::Berry => berry_icon_px(cx, cy, t, ground, i),
        Tile::Enemy => enemy_icon_px(cx, cy, t, sway_of(enemy_bob(e, motion, x, y), t), ground, i),
        _ => ground,
    }
}

/// A map tile holding an enemy shows it: the pixel at the middle of the tile's square takes
/// the enemy's body color, whatever lay there and however the enemy sways, and that color
/// is not the ground's. (A berry bush likewise shows a red berry there.)
pub proof fn lemma_enemy_tile_shows_enemy(e: ExpeditionState, motion: Motion, x: int, y: int, under: u32)
    requires
        e.wf(),
        e.zoom_level <= 5,
        e.map.in_bounds(x, y),
        0 <= map_corner(e, x, y).0 + (12 + e.zoom_level * 4) / 2 < WIDTH,
        0 <= map_corner(e, x, y).1 + (12 + e.zoom_level * 4) / 2 < EXPEDITION_VIEWPORT_HEIGHT,
    ensures
        ({
            let t = 12 + e.zoom_level * 4;
            let i = (map_corner(e, x, y).1 + t / 2) * (WIDTH as int) + map_corner(e, x, y).0 + t / 2;
            &&& e.map.tile(x, y) == Tile::Enemy ==> map_tile_px(e, motion, x, y, under, i) == crate::icons::ENEMY
            &&& e.map.tile(x, y) == Tile::Berry ==> map_tile_px(e, motion, x, y, under, i) == 0xc44b6a
        }),
        crate::icons::ENEMY != GROUND,
        0xc44b6a != GROUND,
{
    let t = 12 + e.zoom_level * 4;
    let (cx, cy) = map_corner(e, x, y);
    crate::frame::lemma_pixel_index(cx + t / 2, cy + t / 2);
    assert(1 <= dot(t) && 12 * dot(t) <= t);
}

/// The color at buffer index `i` once the first `n` tiles of map row `y` are drawn over
/// `under`.
pub open spec fn map_row_px(e: ExpeditionState, motion: Motion, y: int, n: int, under: u32, i: int) -> u32
    decreases n,
{
    if n <= 0 {
        under
    } else {
        map_tile_px(e, motion, n - 1, y, map_row_px(e, motion, y, n - 1, under, i), i)
    }
}

/// The color at buffer index `i` once the first `m` rows of the map are drawn over `under`.
pub open spec fn map_rows_px(e: ExpeditionState, motion: Motion, m: int, under: u32, i: int) -> u32
    decreases m,
{
    if m <= 0 {
        under
    } else {
        map_row_px(e, motion, m - 1, e.map.width as int, map_rows_px(e, motion, m - 1, under, i), i)
    }
}

/// Map tile `(x, y)` is the top left tile of a ruin.
pub open spec fn ruin_anchor(e: ExpeditionState, x: int, y: int) -> bool {
    &&& e.map.tile(x, y) == Tile::Ruin
    &&& !(x > 0 && e.map.tile(x - 1, y) == Tile::Ruin)
    &&& !(y > 0 && e.map.tile(x, y - 1) == Tile::Ruin)
}

/// The color at buffer index `i` once the ruins anchored among the first `n` tiles of map
/// row `y` are drawn over `under`, each over two by two tiles.
pub open spec fn ruin_row_px(e: ExpeditionState, y: int, n: int, under: u32, i: int) -> u32
    decreases n,
{
    if n <= 0 {
        under
    } else {
        let prev = ruin_row_px(e, y, n - 1, under, i);
        if ruin_anchor(e, n - 1, y) {
            let (cx, cy) = map_corner(e, n - 1, y);
            ruin_icon_px(cx, cy, 2 * (12 + e.zoom_level * 4), prev, i)
        } else {
            prev
        }
    }
}

/// The color at buffer index `i` once the ruins of the first `m` rows of the map are drawn
/// over `under`.
pub open spec fn ruin_rows_px(e: ExpeditionState, m: int, under: u32, i: int) -> u32
    decreases m,
{
    if m <= 0 {
        under
    } else {
        ruin_row_px(e, m - 1, e.map.width as int, ruin_rows_px(e, m - 1, under, i), i)
    }
}

/// The color at buffer index `i` once the expedition map is drawn over `under`: every tile,
/// then every ruin.
pub open spec fn map_tiles_px(e: ExpeditionState, motion: Motion, under: u32, i: int) -> u32 {
    let h = e.map.height as int;
    ruin_rows_px(e, h, map_rows_px(e, motion, h, under, i), i)
}

/// The color at buffer index `i` after blending `color` at opacity `alpha` over `under`
/// in the box `w` × `h` at `(x, y)`, cut to the clip box.
pub open spec fn blend_clip(under: u32, i: int, x: int, y: int, w: int, h: int, color: u32, alpha: u32, clip: (usize, usize, usize, usize)) -> u32 {
    if in_box(i, x, y, x + w, y + h) && in_box(i, clip.0 as int, clip.1 as int, clip.0 + clip.2, clip.1 + clip.3) {
        crate::render::blend(color, under, alpha)
    } else {
        under
    }
}

/// The player can move to map tile `(x, y)` with a movement card of value `range`.
pub open spec fn movable(e: ExpeditionState, x: int, y: int, range: int) -> bool {
    e.map.passable(x, y) && (x != e.player_x || y != e.player_y) && e.map.reach(e.player(), (x, y), if range > 0 { range as nat } else { 0 })
}

/// The color at buffer index `i` once the first `n` tiles of map row `y` that a movement
/// card of value `range` reaches are lit over `under`.
pub open spec fn move_row_px(e: ExpeditionState, range: int, y: int, n: int, under: u32, i: int) -> u32
    decreases n,
{
    if n <= 0 {
        under
    } else {
        let prev = move_row_px(e, range, y, n - 1, under, i);
        if movable(e, n - 1, y, range) {
            let t = 12 + e.zoom_level * 4;
            let (cx, cy) = map_corner(e, n - 1, y);
            blend_clip(prev, i, cx + 3, cy + 3, t - 6, t - 6, 0xffffff, 112, map_clip())
        } else {
            prev
        }
    }
}

/// The color at buffer index `i` once the reachable tiles of the first `m` map rows are
/// lit over `under`.
pub open spec fn move_rows_px(e: ExpeditionState, range: int, m: int, under: u32, i: int) -> u32
    decreases m,
{
    if m <= 0 {
        under
    } else {
        move_row_px(e, range, m - 1, e.map.width as int, move_rows_px(e, range, m - 1, under, i), i)
    }
}

/// The color at buffer index `i` once the first `n` cells `cells` of a gather card's range
/// are tinted with `color` over `under`.
pub open spec fn gather_cells_px(e: ExpeditionState, cells: Seq<(i32, i32)>, color: u32, n: int, under: u32, i: int) -> u32
    decreases n,
{
    if n <= 0 {
        under
    } else {
        let t = 12 + e.zoom_level * 4;
        let (cx, cy) = map_corner(e, cells[n - 1].0 as int, cells[n - 1].1 as int);
        blend_clip(gather_cells_px(e, cells, color, n - 1, under, i), i, cx + 2, cy + 2, t - 4, t - 4, color, 104, map_clip())
    }
}

/// The color at buffer index `i` once the range of a gather card is tinted over `under`:
/// white when something in it can be gathered, red otherwise.
pub open spec fn gather_targets_px(e: ExpeditionState, under: u32, i: int) -> u32 {
    let cells = crate::expedition::gather_cells(e.map, e.player_x as int, e.player_y as int);
    let color: u32 = if crate::expedition::has_targets(e.map, cells) { 0xffffff } else { 0xe06c75 };
    gather_cells_px(e, cells, color, cells.len() as int, under, i)
}

/// The color at buffer index `i` once the first `n` cards of `hand` are drawn in the hand
/// row over `under`, leaving out the dragged one.
pub open spec fn hand_cards_px(l: Seq<Seq<u8>>, hand: Seq<Card>, dragged: Option<usize>, n: int, under: u32, i: int) -> u32
    decreases n,
{
    if n <= 0 {
        under
    } else {
        let prev = hand_cards_px(l, hand, dragged, n - 1, under, i);
        if dragged == Some((n - 1) as usize) {
            prev
        } else {
            expedition_card_px(l, hand[n - 1].kind, 28 + (n - 1) * 108, 608, prev, i)
        }
    }
}

/// The value of the movement card whose reach is shown: the card waiting for a
/// destination, else a dragged movement card.
pub open spec fn shown_move_range(e: ExpeditionState, dragged: Option<usize>) -> Option<i32> {
    match e.pending_move_card {
        Some(card) => Some(card.value),
        None => match dragged {
            Some(k) => if k < e.hand.len() && e.hand@[k as int].kind == CardKind::Move { Some(e.hand@[k as int].value) } else { None },
            None => None,
        },
    }
}

/// The color at buffer index `i` once the expedition screen is drawn over `under`: the map
/// with the reach of a waiting or dragged movement card, the description of the tile under
/// the pointer, the range of a dragged gather card, the player, the hand (the dragged card
/// following the pointer), the effect of the hand card under the pointer, the buttons and
/// message bar, and the bag when open. Without an expedition only the backgrounds are drawn.
pub open spec fn expedition_px(l: Seq<Seq<u8>>, g: Game, mx: usize, my: usize, dragged: Option<usize>, motion: Motion, under: u32, i: int) -> u32 {
    let backs = paint(paint(under, i, 0, 0, 1280, 720, 0x12181d), i, 0, 588, 1280, 132, PANEL);
    match g.expedition {
        None => backs,
        Some(e) => {
            let t = 12 + e.zoom_level * 4;
            let mapped = map_tiles_px(e, motion, backs, i);
            let reached = match shown_move_range(e, dragged) {
                Some(range) => move_rows_px(e, range as int, e.map.height as int, mapped, i),
                None => mapped,
            };
            let described = match tile_label_under(e, mx, my) {
                Some(label) => tooltip_over(l[label as int], mx as int, my as int, 1280, 588, reached, i),
                None => reached,
            };
            let gathered = match dragged {
                Some(k) => if k < e.hand.len() && e.hand@[k as int].kind == CardKind::Gather { gather_targets_px(e, described, i) } else { described },
                None => described,
            };
            let (px, py) = map_corner(e, e.player_x as int, e.player_y as int);
            let played = player_marker_px(px, py, t, sway_of(motion.player_bob as int, t), gathered, i);
            let held = hand_cards_px(l, e.hand@, dragged, e.hand.len() as int, played, i);
            let explained = match card_effect_under(e, mx, my) {
                Some(effect) => label_over(l[effect as int], 223, 568, MUTED_TEXT, paint(held, i, 28, 554, 390, 28, 0x1c2330), i),
                None => held,
            };
            let dragging = match dragged {
                Some(k) => if k < e.hand.len() {
                    let cx = if mx >= 46 { mx - 46 } else { 0 };
                    let cy = if my >= 42 { my - 42 } else { 0 };
                    expedition_card_px(l, e.hand@[k as int].kind, cx, cy, explained, i)
                } else {
                    explained
                },
                None => explained,
            };
            let hud = expedition_text_px(l, g, mx as int, my as int, dragging, i);
            if g.show_expedition_bag { expedition_bag_px(l, g, mx as int, my as int, hud, i) } else { hud }
        },
    }
}

/// The clip box of the base view.
pub open spec fn base_clip() -> (usize, usize, usize, usize) {
    (0, 0, 1000, 696)
}

/// Screen position of the top left corner of base tile `(x, y)`.
pub open spec fn base_corner(g: Game, x: int, y: int) -> (int, int) {
    let z = g.base.zoom_level as int;
    let step = base_tile(z) + base_gap(z);
    let ext = base_extent(g.base.size as int, z);
    (
        crate::expedition::origin_axis(ext, 1000, g.base.camera_x as int) + x * step,
        crate::expedition::origin_axis(ext, 696, g.base.camera_y as int) + y * step,
    )
}

/// The color at buffer index `i` once the first `n` tiles of base row `y` are drawn over
/// `under`.
pub open spec fn base_row_px(g: Game, y: int, n: int, under: u32, i: int) -> u32
    decreases n,
{
    if n <= 0 {
        under
    } else {
        let tile = base_tile(g.base.zoom_level as int);
        let (cx, cy) = base_corner(g, n - 1, y);
        clip_paint(base_row_px(g, y, n - 1, under, i), i, cx, cy, tile, tile, BASE, base_clip())
    }
}

/// The color at buffer index `i` once the first `m` rows of the base are drawn over
/// `under`.
pub open spec fn base_rows_px(g: Game, m: int, under: u32, i: int) -> u32
    decreases m,
{
    if m <= 0 {
        under
    } else {
        base_row_px(g, m - 1, g.base.size as int, base_rows_px(g, m - 1, under, i), i)
    }
}

/// The color at buffer index `i` once the icons of the first `n` buildings are drawn over
/// `under`, each on its tile.
pub open spec fn buildings_px(g: Game, n: int, under: u32, i: int) -> u32
    decreases n,
{
    if n <= 0 {
        under
    } else {
        let b = g.base.buildings@[n - 1];
        let (cx, cy) = base_corner(g, b.x as int, b.y as int);
        building_icon_px(b.kind, cx, cy, base_tile(g.base.zoom_level as int), base_clip(), buildings_px(g, n - 1, under, i), i)
    }
}

/// The color at buffer index `i` once the base is drawn over `under`: every tile, then
/// every building.
pub open spec fn base_tiles_px(g: Game, under: u32, i: int) -> u32 {
    buildings_px(g, g.base.buildings.len() as int, base_rows_px(g, g.base.size as int, under, i), i)
}

/// The color at buffer index `i` once the base screen is drawn over `under`: the base and
/// its buildings, the side panel, the placement preview, the information of the building
/// under the pointer, and the open dialogs in turn (storage, character, crafting, build
/// menu, preparation).
pub open spec fn base_px(l: Seq<Seq<u8>>, g: Game, mx: usize, my: usize, save_exists: bool, under: u32, i: int) -> u32 {
    let tiles = base_tiles_px(g, paint(under, i, 0, 0, 1280, 720, 0x17201d), i);
    let side = base_text_px(l, g, mx as int, my as int, save_exists, paint(tiles, i, 1000, 0, 280, 720, PANEL), i);
    let preview = building_preview_px(g, mx, my, side, i);
    let hover = match hovered_building(g, mx, my) {
        Some(k) => tooltip_over(
            l[building_usage_label(g.base.buildings@[k].kind) as int],
            mx as int,
            my as int,
            1000,
            696,
            preview,
            i,
        ),
        None => preview,
    };
    let storage = if g.show_storage_dialog { storage_dialog_px(l, g, mx as int, my as int, hover, i) } else { hover };
    let character = if g.show_character_dialog { character_dialog_px(l, g, mx as int, my as int, storage, i) } else { storage };
    let crafting = if g.show_crafting_dialog { crafting_dialog_px(l, mx as int, my as int, character, i) } else { character };
    let build = if g.show_build_menu { build_menu_px(l, g, mx as int, my as int, crafting, i) } else { crafting };
    if g.show_expedition_prep { expedition_prep_px(l, g, mx as int, my as int, build, i) } else { build }
}

/// The message bar along the bottom of `frame` shows `message`.
pub open spec fn footer_shows(frame: Seq<u32>, message: Seq<char>) -> bool {
    forall|i: int|
        0 <= i < PIXELS && in_box(i, 0, 696, 1280, 720) ==> #[trigger] frame[i] == if text_covers(
            message,
            text_fit(12, 1),
            12,
            703,
            1,
            i,
        ) {
            MUTED_TEXT
        } else {
            0x11151cu32
        }
}

/// How much of a loading screen's time has passed, in thousandths.
pub open spec fn progress(g: Game) -> int {
    let duration: int = if g.screen == Screen::TransitionToExpedition { 750 } else { 900 };
    if g.transition_timer >= duration { 1000 } else { g.transition_timer * 1000 / duration }
}

/// The progress bar of `width` pixels at `(x, y)` in `frame` is filled from the left in
/// proportion to `thousandths`, the rest showing the empty track.
pub open spec fn bar_shows(frame: Seq<u32>, x: int, y: int, width: int, thousandths: int) -> bool {
    forall|i: int|
        0 <= i < PIXELS && in_box(i, x, y, x + width, y + 12) ==> #[trigger] frame[i] == if in_box(
            i,
            x,
            y,
            x + width * thousandths / 1000,
            y + 12,
        ) {
            CARD
        } else {
            0x151a22u32
        }
}

/// The pointer is inside the window.
pub open spec fn pointer_ok(mouse_x: usize, mouse_y: usize) -> bool {
    mouse_x <= WIDTH && mouse_y <= HEIGHT
}

/// Screen position of tile `index` along an axis.
fn tile_pos(origin: i32, index: i32, step: usize) -> (p: i32)
    requires
        -2_100_000_000 <= origin <= 1000,
        0 <= index,
        step <= 1000,
        index * step <= 2_100_000_000,
    ensures
        p == origin + index * step,
        i32::MIN + 10_000 <= p <= i32::MAX - 10_000,
{
    let offset = index as i64 * step as i64;
    (origin as i64 + offset) as i32
}

/// The first `n` tiles of a row of `size` tiles with a pitch of `step`, tile `tile` and gap
/// `step - tile`, end within the base's extent.
proof fn lemma_base_step(index: int, size: int, tile: int, gap: int)
    requires
        0 <= index < size,
        tile >= 0,
        gap >= 0,
    ensures
        index * (tile + gap) <= base_extent_like(size, tile, gap) - tile,
{
    assert(index * (tile + gap) <= (size - 1) * (tile + gap)) by (nonlinear_arith)
        requires index <= size - 1, tile + gap >= 0;
    assert((size - 1) * (tile + gap) == size * tile + (size - 1) * gap - tile) by (nonlinear_arith);
}

spec fn base_extent_like(size: int, tile: int, gap: int) -> int {
    size * tile + (size - 1) * gap
}

proof fn lemma_map_step(index: int, count: int, tile: int)
    requires
        0 <= index < count,
        tile >= 0,
    ensures
        index * tile + tile <= count * tile,
{
    assert(index * tile + tile <= count * tile) by (nonlinear_arith)
        requires index + 1 <= count, tile >= 0;
}

/// The tint of a building of kind `kind` while it is being placed.
pub open spec fn building_color_of(kind: BuildingKind) -> u32 {
    match kind {
        BuildingKind::Campfire => 0x9b7653u32,
        BuildingKind::Storehouse => 0x9b7653u32,
        BuildingKind::Workbench => 0x88a65eu32,
        BuildingKind::ResearchTable => 0x6b8fd6u32,
        BuildingKind::TrainingDummy => 0xc47b6bu32,
    }
}

/// Color of a building under placement.
pub fn building_color(kind: BuildingKind) -> (c: u32)
    ensures
        c == building_color_of(kind),
{
    match kind {
        BuildingKind::Campfire => 0x9b7653,
        BuildingKind::Storehouse => 0x9b7653,
        BuildingKind::Workbench => 0x88a65e,
        BuildingKind::ResearchTable => 0x6b8fd6,
        BuildingKind::TrainingDummy => 0xc47b6b,
    }
}

/// The effect description of the offered card under the pointer in the preparation dialog.
pub fn hovered_prep_card_effect(mouse_x: usize, mouse_y: usize) -> (l: Option<usize>)
    ensures
        l == match first_hit(2, offer_hit(mouse_x as int, mouse_y as int)) {
            Some(i) => Some(if i == 1 { EFFECT_GATHER_LABEL } else { EFFECT_MOVE_LABEL }),
            None => None,
        },
{
    let cards = Card::available_cards();
    proof {
        lemma_first_hit(2, offer_hit(mouse_x as int, mouse_y as int));
    }
    match crate::input::expedition_card_index_at(mouse_x, mouse_y) {
        Some(index) => Some(card_effect_label(cards[index].kind)),
        None => None,
    }
}

/// The description shown for the map tile under `(mx, my)`: one per kind of tile but
/// the plain ground.
pub open spec fn tile_label_under(e: ExpeditionState, mx: usize, my: usize) -> Option<usize> {
    match tile_under(e, mx, my) {
        Some(t) => match e.map.tile(t.0 as int, t.1 as int) {
            Tile::Forest => Some(RES_FOREST_INFO_LABEL),
            Tile::Stone => Some(RES_STONE_INFO_LABEL),
            Tile::Berry => Some(RES_BERRY_INFO_LABEL),
            Tile::Enemy => Some(RES_ENEMY_INFO_LABEL),
            Tile::Ruin => Some(RES_RUIN_INFO_LABEL),
            Tile::Ground => None,
        },
        None => None,
    }
}

/// The effect shown for the hand card under `(mx, my)`: gathering or movement.
pub open spec fn card_effect_under(e: ExpeditionState, mx: usize, my: usize) -> Option<usize> {
    if my < EXPEDITION_HAND_Y || my >= EXPEDITION_HAND_Y + 84 {
        None
    } else {
        match first_hit(e.hand.len() as int, hand_hit(mx as int, my as int)) {
            Some(i) => Some(if e.hand@[i].kind == CardKind::Gather { EFFECT_GATHER_LABEL } else { EFFECT_MOVE_LABEL }),
            None => None,
        }
    }
}

/// The description of the map tile under the pointer, if the tile holds anything.
pub fn hovered_expedition_tile_label(expedition: &ExpeditionState, mouse_x: usize, mouse_y: usize) -> (l: Option<usize>)
    requires
        expedition.wf(),
        expedition.view_fits(),
        expedition.zoom_level <= 5,
        expedition.camera_x > i32::MIN,
        expedition.camera_y > i32::MIN,
    ensures
        l == tile_label_under(*expedition, mouse_x, mouse_y),
{
    match crate::input::expedition_tile_at(expedition, mouse_x, mouse_y) {
        Some((x, y)) => tile_info_label(expedition.map.tile_at(x, y)),
        None => None,
    }
}

/// Whether `(x, y)` is the top left tile of a ruin: neither its left nor its upper
/// neighbour is a ruin.
pub fn is_ruin_anchor(map: &ExplorationMap, x: i32, y: i32) -> (b: bool)
    requires
        map.wf(),
        map.in_bounds(x as int, y as int),
    ensures
        b == (!(x > 0 && map.tile(x - 1, y as int) == Tile::Ruin) && !(y > 0 && map.tile(x as int, y - 1) == Tile::Ruin)),
{
    let left_is_ruin = x > 0 && map.tile_at(x - 1, y) == Tile::Ruin;
    let top_is_ruin = y > 0 && map.tile_at(x, y - 1) == Tile::Ruin;
    !left_is_ruin && !top_is_ruin
}

/// The effect description of the hand card under the pointer on the expedition screen.
pub fn hovered_expedition_card_effect(expedition: &ExpeditionState, mouse_x: usize, mouse_y: usize) -> (l: Option<usize>)
    requires
        expedition.hand.len() <= 1_000_000,
    ensures
        l == card_effect_under(*expedition, mouse_x, mouse_y),
{
    if mouse_y < EXPEDITION_HAND_Y || mouse_y >= EXPEDITION_HAND_Y + 84 {
        return None;
    }
    let ghost hit = hand_hit(mouse_x as int, mouse_y as int);
    let n = expedition.hand.len();
    let mut index: usize = 0;
    while index < n
        invariant
            n == expedition.hand.len(),
            n <= 1_000_000,
            index <= n,
            first_hit(index as int, hit) is None,
            hit == hand_hit(mouse_x as int, mouse_y as int),
        decreases n - index,
    {
        let x = 28 + index * 108;
        if mouse_x >= x && mouse_x < x + 92 && mouse_y >= EXPEDITION_HAND_Y && mouse_y < EXPEDITION_HAND_Y + 84 {
            assert(hit(index as int));
            proof {
                lemma_first_hit_found(index as int, n as int, hit);
            }
            return Some(card_effect_label(expedition.hand[index].kind));
        }
        proof {
            lemma_first_hit(index as int + 1, hit);
        }
        index = index + 1;
    }
    None
}

fn number_text(n: i64) -> (s: String)
    ensures
        s@ == crate::text::decimal(n as int),
{
    let mut s = String::new();
    append_int(&mut s, n);
    s
}

/// `a`, then `sep`, then `b`, in decimal.
fn pair_text(a: i64, sep: &str, b: i64) -> (s: String)
    ensures
        s@ == crate::text::decimal(a as int) + sep@ + crate::text::decimal(b as int),
{
    let mut s = String::new();
    append_int(&mut s, a);
    s.append(sep);
    append_int(&mut s, b);
    s
}

impl Renderer {
    /// The side panel of the base screen: title, base statistics, the buttons (greyed out
    /// when their building is missing or there is no save), the quit confirmation, the
    /// zoom level and the message bar.
    #[verifier::spinoff_prover]
    #[verifier::rlimit(60)]
    pub fn draw_base_text(&mut self, game: &Game, mouse_x: usize, mouse_y: usize, save_exists: bool)
        requires
            old(self).wf(),
            drawable(*game),
            pointer_ok(mouse_x, mouse_y),
        ensures
            final(self).wf(),
            final(self).label_data() == old(self).label_data(),
            forall|i: int|
                0 <= i < PIXELS ==> #[trigger] final(self).frame()[i] == base_text_px(
                    old(self).label_data(),
                    *game,
                    mouse_x as int,
                    mouse_y as int,
                    save_exists,
                    old(self).frame()[i],
                    i,
                ),
            footer_shows(final(self).frame(), game.message@),
    {
        let panel_x = BASE_VIEWPORT_WIDTH + 28;
        self.draw_label(labels::BASE_TITLE_LABEL, panel_x + 52, 32, TEXT);
        let size_text = pair_text(game.base.size as i64, "x", game.base.size as i64);
        self.draw_stat_row(labels::SIZE_LABEL, size_text.as_str(), panel_x + 4, 92);
        let mut count = String::new();
        append_count(&mut count, game.base.buildings.len());
        self.draw_stat_row(labels::BUILDINGS_LABEL, count.as_str(), panel_x + 4, 124);
        let capacity = pair_text(game.storage_used() as i64, "/", game.storage_capacity() as i64);
        self.draw_stat_row(labels::CAPACITY_LABEL, capacity.as_str(), panel_x + 4, 156);
        self.side_button(panel_x, 224, 196, 38, labels::CHARACTER_BUTTON_LABEL, mouse_x, mouse_y);
        self.side_button(panel_x, 274, 196, 38, labels::STORAGE_BUTTON_LABEL, mouse_x, mouse_y);
        if game.storage_is_over_capacity() {
            self.warning_icon(panel_x + 174, 280);
        }
        if game.has_building(BuildingKind::Workbench) {
            self.side_button(panel_x, 324, 196, 38, labels::CRAFT_BUTTON_LABEL, mouse_x, mouse_y);
        } else {
            self.disabled_side_button(panel_x, 324, 196, 38, labels::CRAFT_BUTTON_LABEL);
        }
        self.side_button(panel_x, 374, 92, 38, labels::BUILD_BUTTON_LABEL, mouse_x, mouse_y);
        if game.has_building(BuildingKind::ResearchTable) {
            self.side_button(panel_x + 104, 374, 92, 38, labels::RESEARCH_BUTTON_LABEL, mouse_x, mouse_y);
        } else {
            self.disabled_side_button(panel_x + 104, 374, 92, 38, labels::RESEARCH_BUTTON_LABEL);
        }
        self.side_button(panel_x, 424, 196, 38, labels::EXPLORE_BUTTON_LABEL, mouse_x, mouse_y);
        self.side_button(panel_x, 474, 92, 38, labels::SAVE_BUTTON_LABEL, mouse_x, mouse_y);
        if save_exists {
            self.side_button(panel_x + 104, 474, 92, 38, labels::LOAD_BUTTON_LABEL, mouse_x, mouse_y);
        } else {
            self.disabled_side_button(panel_x + 104, 474, 92, 38, labels::LOAD_BUTTON_LABEL);
        }
        self.side_button(panel_x, 524, 196, 38, labels::QUIT_LABEL, mouse_x, mouse_y);
        if game.confirm_quit {
            self.rect(panel_x - 8, 574, 212, 86, 0x1c2330);
            self.draw_label(labels::CONFIRM_QUIT_LABEL, panel_x + 98, 596, WARNING);
            self.side_button(panel_x, 612, 92, 36, labels::CONFIRM_BUTTON_LABEL, mouse_x, mouse_y);
            self.side_button(panel_x + 104, 612, 92, 36, labels::CANCEL_BUTTON_LABEL, mouse_x, mouse_y);
        }
        let mut zoom = String::new();
        zoom.append("ZOOM ");
        append_count(&mut zoom, game.base.zoom_level + 1);
        zoom.append("x");
        self.draw_text(zoom.as_str(), 12, HEIGHT - 42, 1, MUTED_TEXT);
        self.draw_footer(game.message.as_str());
    }

    /// The character dialog: the first character's name and statistics, and a close button.
    pub fn draw_character_dialog(&mut self, game: &Game, mouse_x: usize, mouse_y: usize)
        requires
            old(self).wf(),
        ensures
            final(self).wf(),
            final(self).label_data() == old(self).label_data(),
            forall|i: int|
                0 <= i < PIXELS ==> #[trigger] final(self).frame()[i] == character_dialog_px(
                    old(self).label_data(),
                    *game,
                    mouse_x as int,
                    mouse_y as int,
                    old(self).frame()[i],
                    i,
                ),
    {
        self.rect(0, 0, BASE_VIEWPORT_WIDTH, BASE_VIEWPORT_HEIGHT, 0x11151c);
        let panel_x = BASE_VIEWPORT_WIDTH / 2 - 240;
        let panel_y = BASE_VIEWPORT_HEIGHT / 2 - 150;
        self.rect(panel_x, panel_y, 480, 300, PANEL);
        self.rect(panel_x + 4, panel_y + 4, 472, 292, 0x252d3a);
        self.draw_label(labels::CHARACTER_TITLE_LABEL, panel_x + 240, panel_y + 42, TEXT);
        if game.characters.len() > 0 {
            let character = &game.characters[0];
            self.draw_text(character.name.as_str(), panel_x + 94, panel_y + 84, 2, TEXT);
            let hp = pair_text(character.hp as i64, "/", character.max_hp as i64);
            self.draw_stat_row(labels::HP_LABEL, hp.as_str(), panel_x + 94, panel_y + 132);
            let attack = number_text(character.attack as i64);
            self.draw_stat_row(labels::ATTACK_STAT_LABEL, attack.as_str(), panel_x + 94, panel_y + 172);
            let defense = number_text(character.defense as i64);
            self.draw_stat_row(labels::DEFENSE_STAT_LABEL, defense.as_str(), panel_x + 94, panel_y + 212);
            let speed = number_text(character.speed as i64);
            self.draw_stat_row(labels::SPEED_STAT_LABEL, speed.as_str(), panel_x + 282, panel_y + 132);
        }
        self.side_button(panel_x + 188, panel_y + 246, 104, 40, labels::CLOSE_BUTTON_LABEL, mouse_x, mouse_y);
    }

    /// The crafting dialog, which has no recipes yet.
    pub fn draw_crafting_dialog(&mut self, mouse_x: usize, mouse_y: usize)
        requires
            old(self).wf(),
        ensures
            final(self).wf(),
            final(self).label_data() == old(self).label_data(),
            forall|i: int|
                0 <= i < PIXELS ==> #[trigger] final(self).frame()[i] == crafting_dialog_px(
                    old(self).label_data(),
                    mouse_x as int,
                    mouse_y as int,
                    old(self).frame()[i],
                    i,
                ),
    {
        self.rect(0, 0, BASE_VIEWPORT_WIDTH, BASE_VIEWPORT_HEIGHT, 0x11151c);
        let panel_x = BASE_VIEWPORT_WIDTH / 2 - 240;
        let panel_y = BASE_VIEWPORT_HEIGHT / 2 - 130;
        self.rect(panel_x, panel_y, 480, 260, PANEL);
        self.rect(panel_x + 4, panel_y + 4, 472, 252, 0x252d3a);
        self.draw_label(labels::CRAFT_TITLE_LABEL, panel_x + 240, panel_y + 42, TEXT);
        self.rect(panel_x + 58, panel_y + 92, 364, 72, 0x1c2330);
        self.draw_label(labels::NO_RECIPES_LABEL, panel_x + 240, panel_y + 128, MUTED_TEXT);
        self.side_button(panel_x + 188, panel_y + 206, 104, 40, labels::CLOSE_BUTTON_LABEL, mouse_x, mouse_y);
    }

    /// One material row of the storage dialog: icon and stock, the discard amount with its
    /// minus and plus arrows (lit when focused), and the discard button, greyed out unless
    /// the amount is positive and covered by the stock.
    pub fn draw_storage_resource_row(&mut self, game: &Game, index: usize, x: usize, y: usize, mouse_x: usize, mouse_y: usize)
        requires
            old(self).wf(),
            index < 3,
            x <= 10_000,
            y <= 10_000,
        ensures
            final(self).wf(),
            final(self).label_data() == old(self).label_data(),
            forall|i: int|
                0 <= i < PIXELS ==> #[trigger] final(self).frame()[i] == storage_row_px(
                    old(self).label_data(),
                    *game,
                    index as int,
                    x as int,
                    y as int,
                    mouse_x as int,
                    mouse_y as int,
                    old(self).frame()[i],
                    i,
                ),
    {
        let amount = game.resources.amount(index);
        self.draw_resource_icon(index, x, y, 36);
        let stock = number_text(amount as i64);
        self.draw_text(stock.as_str(), x + 58, y + 9, 2, TEXT);
        let input_x = x + 158;
        let focused = match game.focused_storage_input {
            Some(f) => f == index,
            None => false,
        };
        let input_color = if focused { 0xf0d060 } else { 0x607080 };
        self.arrow_button(x + 126, y + 2, 26, 32, false, mouse_x, mouse_y);
        self.rect(input_x, y + 2, 46, 32, input_color);
        self.rect(input_x + 3, y + 5, 40, 26, 0x1c2330);
        let typed = number_text(game.storage_discard_inputs[index] as i64);
        self.draw_text(typed.as_str(), input_x + 10, y + 10, 2, TEXT);
        self.arrow_button(input_x + 52, y + 2, 26, 32, true, mouse_x, mouse_y);
        let value = game.storage_discard_inputs[index];
        if value > 0 && value <= amount {
            self.side_button(input_x + 124, y, 88, 36, labels::DISCARD_BUTTON_LABEL, mouse_x, mouse_y);
        } else {
            self.disabled_side_button(input_x + 124, y, 88, 36, labels::DISCARD_BUTTON_LABEL);
        }
    }

    /// The storage dialog: a row per material shown, the used capacity, the close button,
    /// the discard confirmation when one is pending, and the description of the material
    /// whose icon is under the pointer.
    #[verifier::spinoff_prover]
    #[verifier::rlimit(40)]
    pub fn draw_storage_dialog(&mut self, game: &Game, mouse_x: usize, mouse_y: usize)
        requires
            old(self).wf(),
            drawable(*game),
        ensures
            final(self).wf(),
            final(self).label_data() == old(self).label_data(),
            forall|i: int|
                0 <= i < PIXELS ==> #[trigger] final(self).frame()[i] == storage_dialog_px(
                    old(self).label_data(),
                    *game,
                    mouse_x as int,
                    mouse_y as int,
                    old(self).frame()[i],
                    i,
                ),
    {
        self.rect(0, 0, BASE_VIEWPORT_WIDTH, BASE_VIEWPORT_HEIGHT, 0x11151c);
        let panel_x = BASE_VIEWPORT_WIDTH / 2 - 300;
        let panel_y = BASE_VIEWPORT_HEIGHT / 2 - 190;
        self.rect(panel_x, panel_y, 600, 380, PANEL);
        self.rect(panel_x + 4, panel_y + 4, 592, 372, 0x252d3a);
        self.draw_label(labels::STORAGE_TITLE_LABEL, panel_x + 300, panel_y + 40, TEXT);
        let rows = game.visible_storage_indices();
        let ghost l = old(self).label_data();
        let ghost titled = self.frame();
        let mut row: usize = 0;
        while row < rows.len()
            invariant
                rows.len() <= 3,
                forall|k: int| 0 <= k < rows.len() ==> #[trigger] rows@[k] < 3,
                row <= rows.len(),
                panel_x == 200,
                panel_y == 158,
                self.wf(),
                self.label_data() == l,
                forall|i: int|
                    0 <= i < PIXELS ==> #[trigger] self.frame()[i] == storage_rows_px(l, *game, rows@, mouse_x as int, mouse_y as int, row as int, titled[i], i),
            decreases rows.len() - row,
        {
            self.draw_storage_resource_row(game, rows[row], panel_x + 72, panel_y + 92 + row * 56, mouse_x, mouse_y);
            row = row + 1;
        }
        let capacity = pair_text(game.storage_used() as i64, "/", game.storage_capacity() as i64);
        self.draw_stat_row(labels::CAPACITY_LABEL, capacity.as_str(), panel_x + 74, panel_y + 284);
        self.side_button(panel_x + 452, panel_y + 316, 96, 40, labels::CLOSE_BUTTON_LABEL, mouse_x, mouse_y);
        if let Some(index) = game.pending_storage_discard {
            self.rect(panel_x + 138, panel_y + 318, 292, 38, 0x1c2330);
            self.draw_label(labels::CONFIRM_DISCARD_LABEL, panel_x + 250, panel_y + 337, WARNING);
            self.side_button(panel_x + 338, panel_y + 316, 84, 40, labels::CONFIRM_BUTTON_LABEL, mouse_x, mouse_y);
            let amount = number_text(game.storage_discard_inputs[index] as i64);
            self.draw_text(amount.as_str(), panel_x + 292, panel_y + 329, 1, WARNING);
        }
        let ghost asked = self.frame();
        let mut row: usize = 0;
        while row < rows.len()
            invariant
                rows.len() <= 3,
                forall|k: int| 0 <= k < rows.len() ==> #[trigger] rows@[k] < 3,
                row <= rows.len(),
                panel_x == 200,
                panel_y == 158,
                self.wf(),
                self.label_data() == l,
                forall|i: int|
                    0 <= i < PIXELS ==> #[trigger] self.frame()[i] == storage_descriptions_px(l, rows@, mouse_x as int, mouse_y as int, row as int, asked[i], i),
            decreases rows.len() - row,
        {
            let top = panel_y + 80 + row * 56;
            if mouse_x >= panel_x + 72 && mouse_x < panel_x + 108 && mouse_y >= top && mouse_y < top + 36 {
                self.draw_resource_description(material_description_label(rows[row]));
            }
            row = row + 1;
        }
    }

    /// A building of the build menu: a live button when affordable, greyed out otherwise.
    pub fn building_button(
        &mut self,
        game: &Game,
        x: usize,
        y: usize,
        width: usize,
        height: usize,
        label: usize,
        kind: BuildingKind,
        mouse_x: usize,
        mouse_y: usize,
    )
        requires
            old(self).wf(),
            label < labels::LABEL_COUNT,
            width >= 6,
            height >= 6,
            x <= 10_000,
            y <= 10_000,
            width <= 10_000,
            height <= 10_000,
        ensures
            final(self).wf(),
            final(self).label_data() == old(self).label_data(),
            forall|i: int|
                0 <= i < PIXELS ==> #[trigger] final(self).frame()[i] == building_button_px(
                    old(self).label_data()[label as int],
                    *game,
                    x as int,
                    y as int,
                    width as int,
                    height as int,
                    kind,
                    mouse_x as int,
                    mouse_y as int,
                    old(self).frame()[i],
                    i,
                ),
    {
        if game.resources.can_afford(&building_cost(kind)) {
            self.side_button(x, y, width, height, label, mouse_x, mouse_y);
        } else {
            self.disabled_side_button(x, y, width, height, label);
        }
    }

    /// A building's cost (each material in red when the stock falls short), footprint and
    /// use.
    pub fn draw_building_details(&mut self, game: &Game, kind: BuildingKind, x: usize, y: usize)
        requires
            old(self).wf(),
            x <= 5_000,
            y <= 5_000,
        ensures
            final(self).wf(),
            final(self).label_data() == old(self).label_data(),
            forall|i: int|
                0 <= i < PIXELS ==> #[trigger] final(self).frame()[i] == building_details_px(
                    old(self).label_data(),
                    *game,
                    kind,
                    x as int,
                    y as int,
                    old(self).frame()[i],
                    i,
                ),
    {
        let cost = building_cost(kind);
        self.rect(x, y, 460, 46, 0x1c2330);
        self.draw_label(labels::COST_LABEL, x + 34, y + 14, TEXT);
        let mut cost_x = x + 76;
        self.draw_cost_part(0, cost.wood, game.resources.wood, &mut cost_x, y + 14);
        self.draw_cost_part(1, cost.stone, game.resources.stone, &mut cost_x, y + 14);
        self.draw_cost_part(2, cost.food, game.resources.food, &mut cost_x, y + 14);
        self.draw_label(labels::FOOTPRINT_LABEL, x + 292, y + 14, TEXT);
        self.draw_label(labels::FOOTPRINT_1X1_LABEL, x + 354, y + 14, TEXT);
        self.draw_label(labels::USAGE_LABEL, x + 34, y + 34, MUTED_TEXT);
        self.draw_label(building_usage_label(kind), x + 180, y + 34, MUTED_TEXT);
    }

    /// The build menu: the two category tabs, the building of the chosen category, cancel,
    /// and the details of the building under the pointer.
    pub fn draw_build_menu(&mut self, game: &Game, mouse_x: usize, mouse_y: usize)
        requires
            old(self).wf(),
        ensures
            final(self).wf(),
            final(self).label_data() == old(self).label_data(),
            forall|i: int|
                0 <= i < PIXELS ==> #[trigger] final(self).frame()[i] == build_menu_px(
                    old(self).label_data(),
                    *game,
                    mouse_x as int,
                    mouse_y as int,
                    old(self).frame()[i],
                    i,
                ),
    {
        self.rect(0, 0, BASE_VIEWPORT_WIDTH, BASE_VIEWPORT_HEIGHT, 0x11151c);
        let panel_x = BASE_VIEWPORT_WIDTH / 2 - 250;
        let panel_y = BASE_VIEWPORT_HEIGHT / 2 - 160;
        self.rect(panel_x, panel_y, 500, 300, PANEL);
        self.rect(panel_x + 4, panel_y + 4, 492, 292, 0x252d3a);
        self.draw_label(labels::BUILD_MENU_TITLE_LABEL, panel_x + 250, panel_y + 40, TEXT);
        self.category_button(
            panel_x + 40,
            panel_y + 74,
            124,
            38,
            labels::STORAGE_BUTTON_LABEL,
            game.build_menu_category == 0,
            mouse_x,
            mouse_y,
        );
        self.category_button(
            panel_x + 40,
            panel_y + 120,
            124,
            38,
            labels::STATION_CATEGORY_LABEL,
            game.build_menu_category == 1,
            mouse_x,
            mouse_y,
        );
        let (kind, label) = if game.build_menu_category == 0 {
            (BuildingKind::Campfire, labels::SMALL_STOREHOUSE_LABEL)
        } else {
            (BuildingKind::Workbench, labels::WORKBENCH_LABEL)
        };
        self.building_button(game, panel_x + 260, panel_y + 90, 180, 40, label, kind, mouse_x, mouse_y);
        self.side_button(panel_x + 260, panel_y + 190, 180, 40, labels::CANCEL_BUTTON_LABEL, mouse_x, mouse_y);
        if mouse_x >= panel_x + 260 && mouse_x < panel_x + 440 && mouse_y >= panel_y + 90 && mouse_y < panel_y + 130 {
            self.draw_building_details(game, kind, panel_x + 20, panel_y + 242);
        } else {
            self.draw_text("HOVER A BUILDING TO VIEW DETAILS", panel_x + 56, panel_y + 252, 1, MUTED_TEXT);
        }
    }

    /// Food for the prepared deck: the stock and the deck's cost, in red when the stock
    /// does not cover the cost or would leave less than the 3 food the return trip needs,
    /// with a warning in the latter case.
    pub fn draw_prep_food_info(&mut self, game: &Game, panel_x: usize, panel_y: usize)
        requires
            old(self).wf(),
            drawable(*game),
            panel_x <= 5_000,
            panel_y <= 5_000,
        ensures
            final(self).wf(),
            final(self).label_data() == old(self).label_data(),
            forall|i: int|
                0 <= i < PIXELS ==> #[trigger] final(self).frame()[i] == prep_food_px(
                    old(self).label_data(),
                    *game,
                    panel_x as int,
                    panel_y as int,
                    old(self).frame()[i],
                    i,
                ),
    {
        proof {
            crate::card::lemma_food_cost_at_most(game.prep_deck@);
            crate::card::lemma_food_cost_nonneg(game.prep_deck@);
        }
        let cost = game.prep_food_cost();
        let food = game.resources.food;
        let remaining = food - cost;
        let color = if food < cost || remaining < 3 { 0xe06c75 } else { TEXT };
        self.rect(panel_x + 24, panel_y + 368, 310, 40, 0x1c2330);
        self.draw_label(labels::FOOD_LABEL, panel_x + 60, panel_y + 388, color);
        let mut text = String::new();
        text.append(": ");
        append_int(&mut text, food as i64);
        text.append(" [-");
        append_int(&mut text, cost as i64);
        text.append("]");
        self.draw_text(text.as_str(), panel_x + 94, panel_y + 381, 2, color);
        if food >= cost && remaining < 3 {
            self.rect(panel_x + 24, panel_y + 350, 310, 18, 0x1c2330);
            self.draw_label(labels::RETURN_FOOD_WARNING_LABEL, panel_x + 179, panel_y + 360, color);
        }
    }

    /// The expedition preparation: the offered cards, the five deck slots, the effect of the
    /// offered card under the pointer, the food information, "Return", and "Depart" (greyed
    /// out with the reason beside it when the expedition cannot leave).
    #[verifier::spinoff_prover]
    #[verifier::rlimit(40)]
    pub fn draw_expedition_prep(&mut self, game: &Game, mouse_x: usize, mouse_y: usize)
        requires
            old(self).wf(),
            drawable(*game),
        ensures
            final(self).wf(),
            final(self).label_data() == old(self).label_data(),
            forall|i: int|
                0 <= i < PIXELS ==> #[trigger] final(self).frame()[i] == expedition_prep_px(
                    old(self).label_data(),
                    *game,
                    mouse_x as int,
                    mouse_y as int,
                    old(self).frame()[i],
                    i,
                ),
    {
        self.rect(0, 0, BASE_VIEWPORT_WIDTH, BASE_VIEWPORT_HEIGHT, 0x11151c);
        let panel_x = BASE_VIEWPORT_WIDTH / 2 - 316;
        let panel_y = BASE_VIEWPORT_HEIGHT / 2 - 212;
        self.rect(panel_x, panel_y, 632, 424, PANEL);
        self.rect(panel_x + 4, panel_y + 4, 624, 416, 0x252d3a);
        self.draw_label(labels::EXPEDITION_PREP_TITLE_LABEL, panel_x + 316, panel_y + 34, TEXT);
        self.draw_label(labels::PREP_AVAILABLE_CARDS_LABEL, panel_x + 176, panel_y + 66, TEXT);
        self.draw_label(labels::PREP_CARRIED_CARDS_LABEL, panel_x + 532, panel_y + 66, TEXT);
        let cards = Card::available_cards();
        let ghost l = old(self).label_data();
        let ghost titled = self.frame();
        let mut index: usize = 0;
        while index < cards.len()
            invariant
                cards.len() == 2,
                is_move_step(cards[0]),
                is_gather_scrap(cards[1]),
                index <= 2,
                panel_x == 184,
                panel_y == 136,
                self.wf(),
                self.label_data() == l,
                forall|i: int|
                    0 <= i < PIXELS ==> #[trigger] self.frame()[i] == offered_cards_px(l, mouse_x as int, mouse_y as int, index as int, titled[i], i),
            decreases 2 - index,
        {
            let x = panel_x + 40 + (index % 3) * 126;
            let y = panel_y + 96 + (index / 3) * 126;
            self.prep_card(x, y, 100, 104, &cards[index], mouse_x, mouse_y);
            index = index + 1;
        }
        let ghost offered = self.frame();
        let mut slot: usize = 0;
        while slot < MAX_PREP_CARDS
            invariant
                slot <= MAX_PREP_CARDS,
                panel_x == 184,
                panel_y == 136,
                self.wf(),
                self.label_data() == l,
                forall|i: int|
                    0 <= i < PIXELS ==> #[trigger] self.frame()[i] == prep_slots_px(l, game.prep_deck@, slot as int, offered[i], i),
            decreases MAX_PREP_CARDS - slot,
        {
            let y = panel_y + 74 + slot * 56;
            self.rect(panel_x + 472, y, 120, 44, 0xd7c59a);
            if slot < game.prep_deck.len() {
                self.rect(panel_x + 476, y + 4, 112, 36, 0xc9b98e);
                self.draw_label(card_name_label(game.prep_deck[slot].kind), panel_x + 532, y + 22, BLACK);
            } else {
                self.rect(panel_x + 476, y + 4, 112, 36, 0x333a46);
                self.draw_label(labels::EMPTY_SLOT_LABEL, panel_x + 532, y + 22, MUTED_TEXT);
            }
            slot = slot + 1;
        }
        if let Some(effect) = hovered_prep_card_effect(mouse_x, mouse_y) {
            self.rect(panel_x + 24, panel_y + 316, 390, 34, 0x1c2330);
            self.draw_label(effect, panel_x + 219, panel_y + 333, MUTED_TEXT);
        }
        self.draw_prep_food_info(game, panel_x, panel_y);
        self.side_button(panel_x + 396, panel_y + 372, 100, 40, labels::RETURN_BUTTON_LABEL, mouse_x, mouse_y);
        proof {
            crate::card::lemma_food_cost_at_most(game.prep_deck@);
        }
        match game.depart_block_reason() {
            Some(reason) => {
                self.disabled_side_button(panel_x + 516, panel_y + 372, 100, 40, labels::DEPART_BUTTON_LABEL);
                if mouse_x >= panel_x + 516 && mouse_x < panel_x + 616 && mouse_y >= panel_y + 372 && mouse_y < panel_y + 412 {
                    self.depart_block_tooltip(panel_x + 396, panel_y + 336, reason);
                }
            },
            None => {
                self.side_button(panel_x + 516, panel_y + 372, 100, 40, labels::DEPART_BUTTON_LABEL, mouse_x, mouse_y);
            },
        }
    }

    /// The base tiles and the building icons on them, inside the base view.
    pub fn draw_base_tiles(&mut self, game: &Game)
        requires
            old(self).wf(),
            drawable(*game),
        ensures
            final(self).wf(),
            final(self).label_data() == old(self).label_data(),
            forall|i: int|
                0 <= i < PIXELS && !in_box(i, 0, 0, BASE_VIEWPORT_WIDTH as int, BASE_VIEWPORT_HEIGHT as int) ==> #[trigger] final(self).frame()[i]
                    == old(self).frame()[i],
            forall|i: int| 0 <= i < PIXELS ==> #[trigger] final(self).frame()[i] == base_tiles_px(*game, old(self).frame()[i], i),
    {
        let tile_size = game.base_tile_size();
        let gap = game.base_tile_gap();
        let step = tile_size + gap;
        let (extent, _) = game.base_content_size();
        let (origin_x, origin_y) = game.base_origin(BASE_VIEWPORT_WIDTH, BASE_VIEWPORT_HEIGHT);
        let clip = (0usize, 0usize, BASE_VIEWPORT_WIDTH, BASE_VIEWPORT_HEIGHT);
        let size = game.base.size;
        let ghost tile = base_tile(game.base.zoom_level as int);
        let ghost g = base_gap(game.base.zoom_level as int);
        proof {
            assert(-2_100_000_000 <= origin_x <= 1000);
            assert(-2_100_000_000 <= origin_y <= 1000);
        }
        let ghost f0 = self.frame();
        let mut ty: i32 = 0;
        while ty < size
            invariant
                forall|i: int| 0 <= i < PIXELS ==> #[trigger] self.frame()[i] == base_rows_px(*game, ty as int, f0[i], i),
                0 <= ty <= size,
                size == game.base.size,
                drawable(*game),
                tile_size == tile,
                tile == base_tile(game.base.zoom_level as int),
                g == base_gap(game.base.zoom_level as int),
                step == tile + g,
                extent == base_extent(size as int, game.base.zoom_level as int),
                extent <= 2_100_000_000,
                -2_100_000_000 <= origin_x <= 1000,
                -2_100_000_000 <= origin_y <= 1000,
                origin_x == crate::expedition::origin_axis(extent as int, 1000, game.base.camera_x as int),
                origin_y == crate::expedition::origin_axis(extent as int, 696, game.base.camera_y as int),
                clip == (0usize, 0usize, BASE_VIEWPORT_WIDTH, BASE_VIEWPORT_HEIGHT),
                self.wf(),
                self.label_data() == old(self).label_data(),
                forall|i: int|
                    0 <= i < PIXELS && !in_box(i, 0, 0, BASE_VIEWPORT_WIDTH as int, BASE_VIEWPORT_HEIGHT as int) ==> #[trigger] self.frame()[i]
                        == old(self).frame()[i],
            decreases size - ty,
        {
            let ghost row_start = self.frame();
            let mut tx: i32 = 0;
            while tx < size
                invariant
                    forall|i: int| 0 <= i < PIXELS ==> #[trigger] row_start[i] == base_rows_px(*game, ty as int, f0[i], i),
                    forall|i: int| 0 <= i < PIXELS ==> #[trigger] self.frame()[i] == base_row_px(*game, ty as int, tx as int, row_start[i], i),
                    0 <= tx <= size,
                    0 <= ty < size,
                    size == game.base.size,
                    drawable(*game),
                    tile_size == tile,
                    tile == base_tile(game.base.zoom_level as int),
                    g == base_gap(game.base.zoom_level as int),
                    step == tile + g,
                    extent == base_extent(size as int, game.base.zoom_level as int),
                    extent <= 2_100_000_000,
                    -2_100_000_000 <= origin_x <= 1000,
                    -2_100_000_000 <= origin_y <= 1000,
                    origin_x == crate::expedition::origin_axis(extent as int, 1000, game.base.camera_x as int),
                    origin_y == crate::expedition::origin_axis(extent as int, 696, game.base.camera_y as int),
                    clip == (0usize, 0usize, BASE_VIEWPORT_WIDTH, BASE_VIEWPORT_HEIGHT),
                    self.wf(),
                    self.label_data() == old(self).label_data(),
                    forall|i: int|
                        0 <= i < PIXELS && !in_box(i, 0, 0, BASE_VIEWPORT_WIDTH as int, BASE_VIEWPORT_HEIGHT as int) ==> #[trigger] self.frame()[i]
                            == old(self).frame()[i],
                decreases size - tx,
            {
                proof {
                    lemma_base_step(tx as int, size as int, tile, g);
                    lemma_base_step(ty as int, size as int, tile, g);
                }
                let x = tile_pos(origin_x, tx, step);
                let y = tile_pos(origin_y, ty, step);
                self.rect_clipped(x, y, tile_size, tile_size, BASE, clip);
                tx = tx + 1;
            }
            ty = ty + 1;
        }
        let ghost grid = self.frame();
        let mut i: usize = 0;
        while i < game.base.buildings.len()
            invariant
                forall|j: int| 0 <= j < PIXELS ==> #[trigger] grid[j] == base_rows_px(*game, size as int, f0[j], j),
                forall|j: int| 0 <= j < PIXELS ==> #[trigger] self.frame()[j] == buildings_px(*game, i as int, grid[j], j),
                i <= game.base.buildings.len(),
                size == game.base.size,
                drawable(*game),
                tile_size == tile,
                tile == base_tile(game.base.zoom_level as int),
                g == base_gap(game.base.zoom_level as int),
                step == tile + g,
                extent == base_extent(size as int, game.base.zoom_level as int),
                extent <= 2_100_000_000,
                -2_100_000_000 <= origin_x <= 1000,
                -2_100_000_000 <= origin_y <= 1000,
                origin_x == crate::expedition::origin_axis(extent as int, 1000, game.base.camera_x as int),
                origin_y == crate::expedition::origin_axis(extent as int, 696, game.base.camera_y as int),
                clip == (0usize, 0usize, BASE_VIEWPORT_WIDTH, BASE_VIEWPORT_HEIGHT),
                self.wf(),
                self.label_data() == old(self).label_data(),
                forall|i: int|
                    0 <= i < PIXELS && !in_box(i, 0, 0, BASE_VIEWPORT_WIDTH as int, BASE_VIEWPORT_HEIGHT as int) ==> #[trigger] self.frame()[i]
                        == old(self).frame()[i],
            decreases game.base.buildings.len() - i,
        {
            let building = &game.base.buildings[i];
            proof {
                lemma_base_step(building.x as int, size as int, tile, g);
                lemma_base_step(building.y as int, size as int, tile, g);
            }
            let x = tile_pos(origin_x, building.x, step);
            let y = tile_pos(origin_y, building.y, step);
            self.draw_base_building_icon(building.kind, x, y, tile_size, clip);
            i = i + 1;
        }
    }

    /// A see-through preview of the selected building on the tile under the pointer, red
    /// when the tile is taken.
    pub fn draw_building_preview(&mut self, game: &Game, mouse_x: usize, mouse_y: usize)
        requires
            old(self).wf(),
            drawable(*game),
            pointer_ok(mouse_x, mouse_y),
        ensures
            final(self).wf(),
            final(self).label_data() == old(self).label_data(),
            forall|i: int|
                0 <= i < PIXELS && !in_box(i, 0, 0, BASE_VIEWPORT_WIDTH as int, BASE_VIEWPORT_HEIGHT as int) ==> #[trigger] final(self).frame()[i]
                    == old(self).frame()[i],
            forall|i: int|
                0 <= i < PIXELS ==> #[trigger] final(self).frame()[i] == building_preview_px(*game, mouse_x, mouse_y, old(self).frame()[i], i),
    {
        let kind = match game.selected_building {
            Some(kind) => kind,
            None => {
                return;
            },
        };
        if mouse_x >= BASE_VIEWPORT_WIDTH || mouse_y >= BASE_VIEWPORT_HEIGHT {
            return;
        }
        let (tile_x, tile_y) = match crate::input::screen_to_base_tile(game, mouse_x, mouse_y) {
            Some(t) => t,
            None => {
                return;
            },
        };
        let tile_size = game.base_tile_size();
        let step = game.base_tile_size() + game.base_tile_gap();
        let (extent, _) = game.base_content_size();
        let (origin_x, origin_y) = game.base_origin(BASE_VIEWPORT_WIDTH, BASE_VIEWPORT_HEIGHT);
        proof {
            lemma_base_step(tile_x as int, game.base.size as int, base_tile(game.base.zoom_level as int), base_gap(game.base.zoom_level as int));
            lemma_base_step(tile_y as int, game.base.size as int, base_tile(game.base.zoom_level as int), base_gap(game.base.zoom_level as int));
        }
        let occupied = game.tile_occupied(tile_x, tile_y);
        let color = if occupied { 0xb94b4b } else { building_color(kind) };
        let x = tile_pos(origin_x, tile_x, step);
        let y = tile_pos(origin_y, tile_y, step);
        let clip = (0usize, 0usize, BASE_VIEWPORT_WIDTH, BASE_VIEWPORT_HEIGHT);
        self.blend_rect_clipped(x, y, tile_size, tile_size, color, 104, clip);
        if !occupied {
            self.draw_base_building_icon(kind, x, y, tile_size, clip);
        }
    }

    /// What the building under the pointer is for, when no building is being placed and no
    /// dialog covers the base.
    pub fn draw_hovered_base_building_info(&mut self, game: &Game, mouse_x: usize, mouse_y: usize)
        requires
            old(self).wf(),
            drawable(*game),
            pointer_ok(mouse_x, mouse_y),
        ensures
            final(self).wf(),
            final(self).label_data() == old(self).label_data(),
            hovered_building(*game, mouse_x, mouse_y) is None ==> final(self).frame() == old(self).frame(),
            hovered_building(*game, mouse_x, mouse_y) matches Some(k) ==> forall|i: int|
                0 <= i < PIXELS ==> #[trigger] final(self).frame()[i] == tooltip_over(
                    old(self).label_data()[building_usage_label(game.base.buildings@[k].kind) as int],
                    mouse_x as int,
                    mouse_y as int,
                    BASE_VIEWPORT_WIDTH as int,
                    BASE_VIEWPORT_HEIGHT as int,
                    old(self).frame()[i],
                    i,
                ),
    {
        if game.selected_building.is_some() || game.show_storage_dialog || game.show_build_menu || game.show_expedition_prep {
            return;
        }
        let (tile_x, tile_y) = match crate::input::screen_to_base_tile(game, mouse_x, mouse_y) {
            Some(t) => t,
            None => {
                return;
            },
        };
        let ghost hit = anchored_at(game.base.buildings@, tile_x, tile_y);
        let mut i: usize = 0;
        while i < game.base.buildings.len()
            invariant
                i <= game.base.buildings.len(),
                hit == anchored_at(game.base.buildings@, tile_x, tile_y),
                first_hit(i as int, hit) is None,
                !(game.selected_building is Some || game.show_storage_dialog || game.show_build_menu
                    || game.show_expedition_prep),
                crate::input::base_tile_under(*game, mouse_x, mouse_y) == Some((tile_x, tile_y)),
                self.wf(),
                *self == *old(self),
            decreases game.base.buildings.len() - i,
        {
            let building = &game.base.buildings[i];
            if building.x == tile_x && building.y == tile_y {
                proof {
                    lemma_first_hit_found(i as int, game.base.buildings.len() as int, hit);
                    assert(hovered_building(*game, mouse_x, mouse_y) == Some(i as int));
                }
                self.base_building_tooltip(mouse_x, mouse_y, building_usage_label(building.kind));
                return;
            }
            i = i + 1;
        }
    }

    /// The base screen: the tiles and buildings, the side panel, the placement preview, the
    /// building information under the pointer, and the open dialogs.
    #[verifier::spinoff_prover]
    #[verifier::rlimit(40)]
    pub fn draw_base(&mut self, game: &Game, mouse_x: usize, mouse_y: usize, save_exists: bool)
        requires
            old(self).wf(),
            drawable(*game),
            pointer_ok(mouse_x, mouse_y),
        ensures
            final(self).wf(),
            final(self).label_data() == old(self).label_data(),
            !base_dialog_open(*game) && hovered_building(*game, mouse_x, mouse_y) is None ==> footer_shows(
                final(self).frame(),
                game.message@,
            ),
            forall|i: int|
                0 <= i < PIXELS ==> #[trigger] final(self).frame()[i] == base_px(
                    old(self).label_data(),
                    *game,
                    mouse_x,
                    mouse_y,
                    save_exists,
                    old(self).frame()[i],
                    i,
                ),
    {
        self.rect(0, 0, WIDTH, HEIGHT, 0x17201d);
        self.draw_base_tiles(game);
        self.rect(BASE_VIEWPORT_WIDTH, 0, WIDTH - BASE_VIEWPORT_WIDTH, HEIGHT, PANEL);
        self.draw_base_text(game, mouse_x, mouse_y, save_exists);
        self.draw_building_preview(game, mouse_x, mouse_y);
        self.draw_hovered_base_building_info(game, mouse_x, mouse_y);
        if game.show_storage_dialog {
            self.draw_storage_dialog(game, mouse_x, mouse_y);
        }
        if game.show_character_dialog {
            self.draw_character_dialog(game, mouse_x, mouse_y);
        }
        if game.show_crafting_dialog {
            self.draw_crafting_dialog(mouse_x, mouse_y);
        }
        if game.show_build_menu {
            self.draw_build_menu(game, mouse_x, mouse_y);
        }
        if game.show_expedition_prep {
            self.draw_expedition_prep(game, mouse_x, mouse_y);
        }
    }

    /// The expedition map: each tile with its icon (an enemy swayed by its entry of
    /// `motion`), then the ruins, each drawn once over its two by two tiles.
    #[verifier::spinoff_prover]
    #[verifier::rlimit(40)]
    pub fn draw_map_tiles(&mut self, e: &ExpeditionState, motion: &Motion)
        requires
            old(self).wf(),
            e.wf(),
            e.zoom_level <= 5,
            e.view_fits(),
            0 <= e.camera_x <= 2_100_000_000,
            0 <= e.camera_y <= 2_100_000_000,
            e.content_size_spec().0 <= 2_100_000_000,
            e.content_size_spec().1 <= 2_100_000_000,
        ensures
            final(self).wf(),
            final(self).label_data() == old(self).label_data(),
            forall|i: int|
                0 <= i < PIXELS && !in_box(i, 0, 0, WIDTH as int, EXPEDITION_VIEWPORT_HEIGHT as int) ==> #[trigger] final(self).frame()[i]
                    == old(self).frame()[i],
            forall|i: int|
                0 <= i < PIXELS ==> #[trigger] final(self).frame()[i] == map_tiles_px(*e, *motion, old(self).frame()[i], i),
    {
        let tile_size = e.tile_size();
        let (origin_x, origin_y) = e.origin(WIDTH, EXPEDITION_VIEWPORT_HEIGHT);
        let clip = (0usize, 0usize, WIDTH, EXPEDITION_VIEWPORT_HEIGHT);
        let w = e.map.width;
        let h = e.map.height;
        let ghost f0 = self.frame();
        let mut y: i32 = 0;
        while y < h
            invariant
                forall|i: int| 0 <= i < PIXELS ==> #[trigger] self.frame()[i] == map_rows_px(*e, *motion, y as int, f0[i], i),
                0 <= y <= h,
                w == e.map.width,
                h == e.map.height,
                e.wf(),
                e.zoom_level <= 5,
                tile_size == 12 + e.zoom_level * 4,
                e.content_size_spec().0 == w * tile_size,
                e.content_size_spec().1 == h * tile_size,
                e.content_size_spec().0 <= 2_100_000_000,
                e.content_size_spec().1 <= 2_100_000_000,
                -2_100_000_000 <= origin_x <= 1000,
                -2_100_000_000 <= origin_y <= 1000,
                origin_x == crate::expedition::origin_axis(e.content_size_spec().0, 1280, e.camera_x as int),
                origin_y == crate::expedition::origin_axis(e.content_size_spec().1, 588, e.camera_y as int),
                clip == (0usize, 0usize, WIDTH, EXPEDITION_VIEWPORT_HEIGHT),
                self.wf(),
                self.label_data() == old(self).label_data(),
                forall|i: int|
                    0 <= i < PIXELS && !in_box(i, 0, 0, WIDTH as int, EXPEDITION_VIEWPORT_HEIGHT as int) ==> #[trigger] self.frame()[i]
                        == old(self).frame()[i],
            decreases h - y,
        {
            let ghost row_start = self.frame();
            let mut x: i32 = 0;
            while x < w
                invariant
                    forall|i: int| 0 <= i < PIXELS ==> #[trigger] row_start[i] == map_rows_px(*e, *motion, y as int, f0[i], i),
                    forall|i: int| 0 <= i < PIXELS ==> #[trigger] self.frame()[i] == map_row_px(*e, *motion, y as int, x as int, row_start[i], i),
                    0 <= x <= w,
                    0 <= y < h,
                    w == e.map.width,
                    h == e.map.height,
                    e.wf(),
                    e.zoom_level <= 5,
                    tile_size == 12 + e.zoom_level * 4,
                    e.content_size_spec().0 == w * tile_size,
                    e.content_size_spec().1 == h * tile_size,
                    e.content_size_spec().0 <= 2_100_000_000,
                    e.content_size_spec().1 <= 2_100_000_000,
                    -2_100_000_000 <= origin_x <= 1000,
                    -2_100_000_000 <= origin_y <= 1000,
                    origin_x == crate::expedition::origin_axis(e.content_size_spec().0, 1280, e.camera_x as int),
                    origin_y == crate::expedition::origin_axis(e.content_size_spec().1, 588, e.camera_y as int),
                    clip == (0usize, 0usize, WIDTH, EXPEDITION_VIEWPORT_HEIGHT),
                    self.wf(),
                    self.label_data() == old(self).label_data(),
                    forall|i: int|
                        0 <= i < PIXELS && !in_box(i, 0, 0, WIDTH as int, EXPEDITION_VIEWPORT_HEIGHT as int) ==> #[trigger] self.frame()[i]
                            == old(self).frame()[i],
                decreases w - x,
            {
                proof {
                    lemma_map_step(x as int, w as int, tile_size as int);
                    lemma_map_step(y as int, h as int, tile_size as int);
                }
                let tile_x = tile_pos(origin_x, x, tile_size);
                let tile_y = tile_pos(origin_y, y, tile_size);
                let tile = e.map.tile_at(x, y);
                let ghost before = self.frame();
                proof {
                    assert(map_corner(*e, x as int, y as int) == (tile_x as int, tile_y as int));
                }
                self.rect_clipped(tile_x, tile_y, tile_size - 1, tile_size - 1, GROUND, clip);
                match tile {
                    Tile::Forest => self.draw_tree_icon(tile_x, tile_y, tile_size),
                    Tile::Stone => self.draw_stone_icon(tile_x, tile_y, tile_size),
                    Tile::Berry => self.draw_berry_icon(tile_x, tile_y, tile_size),
                    Tile::Enemy => {
                        let index = e.map.index(x, y);
                        let bob = if index < motion.enemy_bobs.len() { motion.enemy_bobs[index] } else { 0 };
                        self.draw_enemy_icon(tile_x, tile_y, tile_size, sway(bob, tile_size));
                    },
                    _ => {},
                }
                assert forall|i: int| 0 <= i < PIXELS implies #[trigger] self.frame()[i] == map_tile_px(
                    *e,
                    *motion,
                    x as int,
                    y as int,
                    before[i],
                    i,
                ) by {}
                x = x + 1;
            }
            y = y + 1;
        }
        let ghost tiles = self.frame();
        let mut y: i32 = 0;
        while y < h
            invariant
                forall|i: int| 0 <= i < PIXELS ==> #[trigger] tiles[i] == map_rows_px(*e, *motion, h as int, f0[i], i),
                forall|i: int| 0 <= i < PIXELS ==> #[trigger] self.frame()[i] == ruin_rows_px(*e, y as int, tiles[i], i),
                0 <= y <= h,
                w == e.map.width,
                h == e.map.height,
                e.wf(),
                e.zoom_level <= 5,
                tile_size == 12 + e.zoom_level * 4,
                e.content_size_spec().0 == w * tile_size,
                e.content_size_spec().1 == h * tile_size,
                e.content_size_spec().0 <= 2_100_000_000,
                e.content_size_spec().1 <= 2_100_000_000,
                -2_100_000_000 <= origin_x <= 1000,
                -2_100_000_000 <= origin_y <= 1000,
                origin_x == crate::expedition::origin_axis(e.content_size_spec().0, 1280, e.camera_x as int),
                origin_y == crate::expedition::origin_axis(e.content_size_spec().1, 588, e.camera_y as int),
                self.wf(),
                self.label_data() == old(self).label_data(),
                forall|i: int|
                    0 <= i < PIXELS && !in_box(i, 0, 0, WIDTH as int, EXPEDITION_VIEWPORT_HEIGHT as int) ==> #[trigger] self.frame()[i]
                        == old(self).frame()[i],
            decreases h - y,
        {
            let ghost row_start = self.frame();
            let mut x: i32 = 0;
            while x < w
                invariant
                    forall|i: int| 0 <= i < PIXELS ==> #[trigger] row_start[i] == ruin_rows_px(*e, y as int, tiles[i], i),
                    forall|i: int| 0 <= i < PIXELS ==> #[trigger] self.frame()[i] == ruin_row_px(*e, y as int, x as int, row_start[i], i),
                    0 <= x <= w,
                    0 <= y < h,
                    w == e.map.width,
                    h == e.map.height,
                    e.wf(),
                    e.zoom_level <= 5,
                    tile_size == 12 + e.zoom_level * 4,
                    e.content_size_spec().0 == w * tile_size,
                    e.content_size_spec().1 == h * tile_size,
                    e.content_size_spec().0 <= 2_100_000_000,
                    e.content_size_spec().1 <= 2_100_000_000,
                    -2_100_000_000 <= origin_x <= 1000,
                    -2_100_000_000 <= origin_y <= 1000,
                    origin_x == crate::expedition::origin_axis(e.content_size_spec().0, 1280, e.camera_x as int),
                    origin_y == crate::expedition::origin_axis(e.content_size_spec().1, 588, e.camera_y as int),
                    self.wf(),
                    self.label_data() == old(self).label_data(),
                    forall|i: int|
                        0 <= i < PIXELS && !in_box(i, 0, 0, WIDTH as int, EXPEDITION_VIEWPORT_HEIGHT as int) ==> #[trigger] self.frame()[i]
                            == old(self).frame()[i],
                decreases w - x,
            {
                if e.map.tile_at(x, y) == Tile::Ruin && is_ruin_anchor(&e.map, x, y) {
                    proof {
                        lemma_map_step(x as int, w as int, tile_size as int);
                        lemma_map_step(y as int, h as int, tile_size as int);
                    }
                    let tile_x = tile_pos(origin_x, x, tile_size);
                    let tile_y = tile_pos(origin_y, y, tile_size);
                    self.draw_ruin_icon(tile_x, tile_y, tile_size * 2);
                }
                x = x + 1;
            }
            y = y + 1;
        }
    }

    /// The tiles a movement card of `range` can reach, whitened.
    pub fn draw_move_targets(&mut self, e: &ExpeditionState, range: i32)
        requires
            old(self).wf(),
            e.wf(),
            e.zoom_level <= 5,
            e.view_fits(),
            0 <= e.camera_x <= 2_100_000_000,
            0 <= e.camera_y <= 2_100_000_000,
            e.content_size_spec().0 <= 2_100_000_000,
            e.content_size_spec().1 <= 2_100_000_000,
        ensures
            final(self).wf(),
            final(self).label_data() == old(self).label_data(),
            forall|i: int|
                0 <= i < PIXELS && !in_box(i, 0, 0, WIDTH as int, EXPEDITION_VIEWPORT_HEIGHT as int) ==> #[trigger] final(self).frame()[i]
                    == old(self).frame()[i],
            forall|i: int|
                0 <= i < PIXELS ==> #[trigger] final(self).frame()[i] == move_rows_px(*e, range as int, e.map.height as int, old(self).frame()[i], i),
    {
        let tile_size = e.tile_size();
        let (origin_x, origin_y) = e.origin(WIDTH, EXPEDITION_VIEWPORT_HEIGHT);
        let clip = (0usize, 0usize, WIDTH, EXPEDITION_VIEWPORT_HEIGHT);
        let w = e.map.width;
        let h = e.map.height;
        let ghost f0 = self.frame();
        let mut y: i32 = 0;
        while y < h
            invariant
                forall|i: int| 0 <= i < PIXELS ==> #[trigger] self.frame()[i] == move_rows_px(*e, range as int, y as int, f0[i], i),
                0 <= y <= h,
                w == e.map.width,
                h == e.map.height,
                e.wf(),
                e.zoom_level <= 5,
                tile_size == 12 + e.zoom_level * 4,
                e.content_size_spec().0 == w * tile_size,
                e.content_size_spec().1 == h * tile_size,
                e.content_size_spec().0 <= 2_100_000_000,
                e.content_size_spec().1 <= 2_100_000_000,
                -2_100_000_000 <= origin_x <= 1000,
                -2_100_000_000 <= origin_y <= 1000,
                origin_x == crate::expedition::origin_axis(e.content_size_spec().0, 1280, e.camera_x as int),
                origin_y == crate::expedition::origin_axis(e.content_size_spec().1, 588, e.camera_y as int),
                clip == (0usize, 0usize, WIDTH, EXPEDITION_VIEWPORT_HEIGHT),
                self.wf(),
                self.label_data() == old(self).label_data(),
                forall|i: int|
                    0 <= i < PIXELS && !in_box(i, 0, 0, WIDTH as int, EXPEDITION_VIEWPORT_HEIGHT as int) ==> #[trigger] self.frame()[i]
                        == old(self).frame()[i],
            decreases h - y,
        {
            let ghost row_start = self.frame();
            let mut x: i32 = 0;
            while x < w
                invariant
                    forall|i: int| 0 <= i < PIXELS ==> #[trigger] row_start[i] == move_rows_px(*e, range as int, y as int, f0[i], i),
                    forall|i: int| 0 <= i < PIXELS ==> #[trigger] self.frame()[i] == move_row_px(*e, range as int, y as int, x as int, row_start[i], i),
                    0 <= x <= w,
                    0 <= y < h,
                    w == e.map.width,
                    h == e.map.height,
                    e.wf(),
                    e.zoom_level <= 5,
                    tile_size == 12 + e.zoom_level * 4,
                    e.content_size_spec().0 == w * tile_size,
                    e.content_size_spec().1 == h * tile_size,
                    e.content_size_spec().0 <= 2_100_000_000,
                    e.content_size_spec().1 <= 2_100_000_000,
                    -2_100_000_000 <= origin_x <= 1000,
                    -2_100_000_000 <= origin_y <= 1000,
                    origin_x == crate::expedition::origin_axis(e.content_size_spec().0, 1280, e.camera_x as int),
                    origin_y == crate::expedition::origin_axis(e.content_size_spec().1, 588, e.camera_y as int),
                    clip == (0usize, 0usize, WIDTH, EXPEDITION_VIEWPORT_HEIGHT),
                    self.wf(),
                    self.label_data() == old(self).label_data(),
                    forall|i: int|
                        0 <= i < PIXELS && !in_box(i, 0, 0, WIDTH as int, EXPEDITION_VIEWPORT_HEIGHT as int) ==> #[trigger] self.frame()[i]
                            == old(self).frame()[i],
                decreases w - x,
            {
                if e.can_move_to(x, y, range) {
                    proof {
                        lemma_map_step(x as int, w as int, tile_size as int);
                        lemma_map_step(y as int, h as int, tile_size as int);
                    }
                    let tile_x = tile_pos(origin_x, x, tile_size);
                    let tile_y = tile_pos(origin_y, y, tile_size);
                    self.blend_rect_clipped(tile_x + 3, tile_y + 3, tile_size - 6, tile_size - 6, 0xffffff, 112, clip);
                }
                x = x + 1;
            }
            y = y + 1;
        }
    }

    /// The gathering range of a dragged gather card: white over the tiles when something
    /// there can be gathered, red when nothing can.
    pub fn draw_gather_targets(&mut self, e: &ExpeditionState)
        requires
            old(self).wf(),
            e.wf(),
            e.zoom_level <= 5,
            e.view_fits(),
            0 <= e.camera_x <= 2_100_000_000,
            0 <= e.camera_y <= 2_100_000_000,
            e.content_size_spec().0 <= 2_100_000_000,
            e.content_size_spec().1 <= 2_100_000_000,
        ensures
            final(self).wf(),
            final(self).label_data() == old(self).label_data(),
            forall|i: int|
                0 <= i < PIXELS && !in_box(i, 0, 0, WIDTH as int, EXPEDITION_VIEWPORT_HEIGHT as int) ==> #[trigger] final(self).frame()[i]
                    == old(self).frame()[i],
            forall|i: int|
                0 <= i < PIXELS ==> #[trigger] final(self).frame()[i] == gather_targets_px(*e, old(self).frame()[i], i),
    {
        let tile_size = e.tile_size();
        let (origin_x, origin_y) = e.origin(WIDTH, EXPEDITION_VIEWPORT_HEIGHT);
        let clip = (0usize, 0usize, WIDTH, EXPEDITION_VIEWPORT_HEIGHT);
        let color = if e.has_gather_targets() { 0xffffff } else { 0xe06c75 };
        let cells = e.gather_range_tiles();
        proof {
            e.lemma_gather_cells();
        }
        let ghost f0 = self.frame();
        let mut k: usize = 0;
        while k < cells.len()
            invariant
                cells@ == crate::expedition::gather_cells(e.map, e.player_x as int, e.player_y as int),
                color == (if crate::expedition::has_targets(e.map, cells@) { 0xffffffu32 } else { 0xe06c75u32 }),
                forall|i: int| 0 <= i < PIXELS ==> #[trigger] self.frame()[i] == gather_cells_px(*e, cells@, color, k as int, f0[i], i),
                k <= cells.len(),
                e.wf(),
                e.zoom_level <= 5,
                forall|i: int| 0 <= i < cells.len() ==> e.map.in_bounds(#[trigger] cells@[i].0 as int, cells@[i].1 as int),
                tile_size == 12 + e.zoom_level * 4,
                e.content_size_spec().0 == (if e.map.width > 0 { e.map.width as int } else { 0 }) * tile_size,
                e.content_size_spec().1 == (if e.map.height > 0 { e.map.height as int } else { 0 }) * tile_size,
                e.content_size_spec().0 <= 2_100_000_000,
                e.content_size_spec().1 <= 2_100_000_000,
                -2_100_000_000 <= origin_x <= 1000,
                -2_100_000_000 <= origin_y <= 1000,
                origin_x == crate::expedition::origin_axis(e.content_size_spec().0, 1280, e.camera_x as int),
                origin_y == crate::expedition::origin_axis(e.content_size_spec().1, 588, e.camera_y as int),
                clip == (0usize, 0usize, WIDTH, EXPEDITION_VIEWPORT_HEIGHT),
                self.wf(),
                self.label_data() == old(self).label_data(),
                forall|i: int|
                    0 <= i < PIXELS && !in_box(i, 0, 0, WIDTH as int, EXPEDITION_VIEWPORT_HEIGHT as int) ==> #[trigger] self.frame()[i]
                        == old(self).frame()[i],
            decreases cells.len() - k,
        {
            let (x, y) = cells[k];
            proof {
                lemma_map_step(x as int, e.map.width as int, tile_size as int);
                lemma_map_step(y as int, e.map.height as int, tile_size as int);
            }
            let tile_x = tile_pos(origin_x, x, tile_size);
            let tile_y = tile_pos(origin_y, y, tile_size);
            self.blend_rect_clipped(tile_x + 2, tile_y + 2, tile_size - 4, tile_size - 4, color, 104, clip);
            k = k + 1;
        }
    }

    /// The hint above the hand, the bag and return buttons, and the message bar.
    pub fn draw_expedition_text(&mut self, game: &Game, mouse_x: usize, mouse_y: usize)
        requires
            old(self).wf(),
        ensures
            final(self).wf(),
            final(self).label_data() == old(self).label_data(),
            forall|i: int|
                0 <= i < PIXELS ==> #[trigger] final(self).frame()[i] == expedition_text_px(
                    old(self).label_data(),
                    *game,
                    mouse_x as int,
                    mouse_y as int,
                    old(self).frame()[i],
                    i,
                ),
            footer_shows(final(self).frame(), game.message@),
    {
        self.draw_text("DRAG CARD TO PLAY", 28, EXPEDITION_HAND_Y - 18, 1, TEXT);
        let button_x = WIDTH - 132;
        self.side_button(button_x, HEIGHT - 104, 104, 40, labels::BAG_BUTTON_LABEL, mouse_x, mouse_y);
        self.side_button(button_x, HEIGHT - 58, 104, 40, labels::RETURN_BUTTON_LABEL, mouse_x, mouse_y);
        self.draw_footer(game.message.as_str());
    }

    /// The expedition bag: the carried wood, stone and food, and a close button.
    pub fn draw_expedition_bag(&mut self, game: &Game, mouse_x: usize, mouse_y: usize)
        requires
            old(self).wf(),
        ensures
            final(self).wf(),
            final(self).label_data() == old(self).label_data(),
            game.expedition is None ==> final(self).frame() == old(self).frame(),
            forall|i: int|
                0 <= i < PIXELS ==> #[trigger] final(self).frame()[i] == expedition_bag_px(
                    old(self).label_data(),
                    *game,
                    mouse_x as int,
                    mouse_y as int,
                    old(self).frame()[i],
                    i,
                ),
    {
        let expedition = match &game.expedition {
            Some(e) => e,
            None => {
                return;
            },
        };
        let panel_x = WIDTH / 2 - 180;
        self.rect(panel_x, 144, 360, 230, PANEL);
        self.rect(panel_x + 4, 148, 352, 222, 0x252d3a);
        self.draw_label(labels::EXPEDITION_BAG_TITLE_LABEL, panel_x + 180, 184, TEXT);
        let wood = number_text(expedition.cargo.wood as i64);
        self.draw_stat_row(labels::WOOD_LABEL, wood.as_str(), panel_x + 100, 228);
        let stone = number_text(expedition.cargo.stone as i64);
        self.draw_stat_row(labels::STONE_LABEL, stone.as_str(), panel_x + 100, 268);
        let food = number_text(expedition.cargo.food as i64);
        self.draw_stat_row(labels::FOOD_LABEL, food.as_str(), panel_x + 100, 300);
        self.side_button(panel_x + 128, 324, 104, 40, labels::CLOSE_BUTTON_LABEL, mouse_x, mouse_y);
    }

    /// The expedition screen: the map, the reach of a waiting or dragged movement card,
    /// the description of the tile under the pointer, the range of a dragged gather card,
    /// the player, the hand (the dragged card follows the pointer), the effect of the hand
    /// card under the pointer, the buttons and the bag.
    #[verifier::spinoff_prover]
    #[verifier::rlimit(40)]
    pub fn draw_expedition(&mut self, game: &Game, mouse_x: usize, mouse_y: usize, dragged_card: Option<usize>, motion: &Motion)
        requires
            old(self).wf(),
            drawable(*game),
            pointer_ok(mouse_x, mouse_y),
        ensures
            final(self).wf(),
            final(self).label_data() == old(self).label_data(),
            game.expedition is None ==> forall|i: int|
                0 <= i < PIXELS ==> #[trigger] final(self).frame()[i] == if row_of(i) < EXPEDITION_VIEWPORT_HEIGHT {
                    0x12181du32
                } else {
                    PANEL
                },
            game.expedition is Some && !game.show_expedition_bag ==> footer_shows(final(self).frame(), game.message@),
            forall|i: int|
                0 <= i < PIXELS ==> #[trigger] final(self).frame()[i] == expedition_px(
                    old(self).label_data(),
                    *game,
                    mouse_x,
                    mouse_y,
                    dragged_card,
                    *motion,
                    old(self).frame()[i],
                    i,
                ),
    {
        self.rect(0, 0, WIDTH, HEIGHT, 0x12181d);
        self.rect(0, EXPEDITION_VIEWPORT_HEIGHT, WIDTH, HEIGHT - EXPEDITION_VIEWPORT_HEIGHT, PANEL);
        let expedition = match &game.expedition {
            Some(e) => e,
            None => {
                return;
            },
        };
        self.draw_map_tiles(expedition, motion);
        let dragged_move_range = match dragged_card {
            Some(index) => if index < expedition.hand.len() && expedition.hand[index].kind == CardKind::Move {
                Some(expedition.hand[index].value)
            } else {
                None
            },
            None => None,
        };
        let move_range = match &expedition.pending_move_card {
            Some(card) => Some(card.value),
            None => dragged_move_range,
        };
        if let Some(range) = move_range {
            self.draw_move_targets(expedition, range);
        }
        if let Some(label) = hovered_expedition_tile_label(expedition, mouse_x, mouse_y) {
            self.resource_tooltip(mouse_x, mouse_y, label);
        }
        if let Some(index) = dragged_card {
            if index < expedition.hand.len() && expedition.hand[index].kind == CardKind::Gather {
                self.draw_gather_targets(expedition);
            }
        }
        let tile_size = expedition.tile_size();
        let (origin_x, origin_y) = expedition.origin(WIDTH, EXPEDITION_VIEWPORT_HEIGHT);
        proof {
            lemma_map_step(expedition.player_x as int, expedition.map.width as int, tile_size as int);
            lemma_map_step(expedition.player_y as int, expedition.map.height as int, tile_size as int);
        }
        let player_x = tile_pos(origin_x, expedition.player_x, tile_size);
        let player_y = tile_pos(origin_y, expedition.player_y, tile_size);
        self.draw_player_marker(player_x, player_y, tile_size, sway(motion.player_bob, tile_size));
        let ghost before_hand = self.frame();
        let mut index: usize = 0;
        while index < expedition.hand.len()
            invariant
                index <= expedition.hand.len(),
                expedition.hand.len() <= 1_000_000,
                self.wf(),
                self.label_data() == old(self).label_data(),
                forall|i: int|
                    0 <= i < PIXELS ==> #[trigger] self.frame()[i] == hand_cards_px(
                        old(self).label_data(),
                        expedition.hand@,
                        dragged_card,
                        index as int,
                        before_hand[i],
                        i,
                    ),
            decreases expedition.hand.len() - index,
        {
            if dragged_card != Some(index) {
                self.expedition_card(28 + index * 108, EXPEDITION_HAND_Y, &expedition.hand[index]);
            }
            index = index + 1;
        }
        if let Some(effect) = hovered_expedition_card_effect(expedition, mouse_x, mouse_y) {
            self.rect(28, EXPEDITION_HAND_Y - 54, 390, 28, 0x1c2330);
            self.draw_label(effect, 223, EXPEDITION_HAND_Y - 40, MUTED_TEXT);
        }
        if let Some(index) = dragged_card {
            if index < expedition.hand.len() {
                self.expedition_card(mouse_x.saturating_sub(46), mouse_y.saturating_sub(42), &expedition.hand[index]);
            }
        }
        self.draw_expedition_text(game, mouse_x, mouse_y);
        if game.show_expedition_bag {
            self.draw_expedition_bag(game, mouse_x, mouse_y);
        }
    }

    /// The main menu: title, subtitle, the new, load and quit buttons, and the message bar.
    pub fn draw_menu(&mut self, game: &Game, mouse_x: usize, mouse_y: usize)
        requires
            old(self).wf(),
        ensures
            final(self).wf(),
            final(self).label_data() == old(self).label_data(),
            forall|i: int|
                0 <= i < PIXELS ==> #[trigger] final(self).frame()[i] == menu_px(
                    old(self).label_data(),
                    *game,
                    mouse_x as int,
                    mouse_y as int,
                    old(self).frame()[i],
                    i,
                ),
            footer_shows(final(self).frame(), game.message@),
    {
        self.rect(0, 0, WIDTH, HEIGHT, 0x1a2028);
        let panel_x = WIDTH / 2 - 230;
        let panel_y = HEIGHT / 2 - 190;
        self.rect(panel_x, panel_y, 460, 380, PANEL);
        self.draw_text("GRUNTIA", panel_x + 46, panel_y + 42, 6, TEXT);
        self.draw_text("BASE AND CARD EXPEDITION DEMO", panel_x + 68, panel_y + 110, 2, MUTED_TEXT);
        self.menu_button(panel_x + 90, panel_y + 154, 280, 54, labels::NEW_GAME_LABEL, mouse_x, mouse_y);
        self.menu_button(panel_x + 90, panel_y + 224, 280, 54, labels::LOAD_GAME_LABEL, mouse_x, mouse_y);
        self.menu_button(panel_x + 90, panel_y + 294, 280, 54, labels::QUIT_LABEL, mouse_x, mouse_y);
        self.draw_footer(game.message.as_str());
    }

    /// The screen shown while the base is prepared: title, subtitle, a progress bar
    /// filled in proportion to the time spent, and the message bar.
    pub fn draw_base_transition(&mut self, game: &Game)
        requires
            old(self).wf(),
        ensures
            final(self).wf(),
            final(self).label_data() == old(self).label_data(),
            forall|i: int|
                0 <= i < PIXELS ==> #[trigger] final(self).frame()[i] == loading_px(
                    0x111820,
                    400,
                    272,
                    480,
                    176,
                    "GRUNTIA"@,
                    514,
                    304,
                    "PREPARING BASE"@,
                    544,
                    360,
                    480,
                    406,
                    320,
                    progress(*game),
                    game.message@,
                    old(self).frame()[i],
                    i,
                ),
            footer_shows(final(self).frame(), game.message@),
            bar_shows(final(self).frame(), 480, 406, 320, progress(*game)),
    {
        self.rect(0, 0, WIDTH, HEIGHT, 0x111820);
        let panel_x = WIDTH / 2 - 240;
        let panel_y = HEIGHT / 2 - 88;
        self.rect(panel_x, panel_y, 480, 176, PANEL);
        self.draw_text("GRUNTIA", panel_x + 114, panel_y + 32, 4, TEXT);
        self.draw_text("PREPARING BASE", panel_x + 144, panel_y + 88, 2, MUTED_TEXT);
        let progress = game.transition_progress() as usize;
        let bar_width: usize = 320;
        self.rect(panel_x + 80, panel_y + 134, bar_width, 12, 0x151a22);
        self.rect(panel_x + 80, panel_y + 134, bar_width * progress / 1000, 12, CARD);
        self.draw_footer(game.message.as_str());
    }

    /// The screen shown while the map and deck are prepared: title, subtitle, a progress
    /// bar filled in proportion to the time spent, and the message bar.
    pub fn draw_expedition_transition(&mut self, game: &Game)
        requires
            old(self).wf(),
        ensures
            final(self).wf(),
            final(self).label_data() == old(self).label_data(),
            forall|i: int|
                0 <= i < PIXELS ==> #[trigger] final(self).frame()[i] == loading_px(
                    0x10161d,
                    380,
                    265,
                    520,
                    190,
                    "EXPEDITION"@,
                    486,
                    303,
                    "PREPARING MAP AND DECK"@,
                    508,
                    369,
                    460,
                    415,
                    360,
                    progress(*game),
                    game.message@,
                    old(self).frame()[i],
                    i,
                ),
            footer_shows(final(self).frame(), game.message@),
            bar_shows(final(self).frame(), 460, 415, 360, progress(*game)),
    {
        self.rect(0, 0, WIDTH, HEIGHT, 0x10161d);
        let panel_x = WIDTH / 2 - 260;
        let panel_y = HEIGHT / 2 - 95;
        self.rect(panel_x, panel_y, 520, 190, PANEL);
        self.draw_text("EXPEDITION", panel_x + 106, panel_y + 38, 4, TEXT);
        self.draw_text("PREPARING MAP AND DECK", panel_x + 128, panel_y + 104, 2, MUTED_TEXT);
        let progress = game.transition_progress() as usize;
        let bar_width: usize = 360;
        self.rect(panel_x + 80, panel_y + 150, bar_width, 12, 0x151a22);
        self.rect(panel_x + 80, panel_y + 150, bar_width * progress / 1000, 12, CARD);
        self.draw_footer(game.message.as_str());
    }

    /// The game-over screen: the cause (starvation when the message mentions food, else
    /// the loss of the characters), the load button (greyed out with no save), restart
    /// and main menu.
    pub fn draw_game_over(&mut self, game: &Game, mouse_x: usize, mouse_y: usize, save_exists: bool)
        requires
            old(self).wf(),
        ensures
            final(self).wf(),
            final(self).label_data() == old(self).label_data(),
            forall|i: int|
                0 <= i < PIXELS ==> #[trigger] final(self).frame()[i] == game_over_px(
                    old(self).label_data(),
                    *game,
                    mouse_x as int,
                    mouse_y as int,
                    save_exists,
                    old(self).frame()[i],
                    i,
                ),
            footer_shows(final(self).frame(), game.message@),
    {
        self.rect(0, 0, WIDTH, HEIGHT, 0x22181b);
        let panel_x = WIDTH / 2 - 300;
        let panel_y = HEIGHT / 2 - 150;
        self.rect(panel_x, panel_y, 600, 300, 0x5c2731);
        self.draw_text("CAMPAIGN FAILED", panel_x + 110, panel_y + 42, 3, TEXT);
        let death = labels::death_label(game.message.as_str());
        self.draw_label(death, WIDTH / 2, panel_y + 122, WARNING);
        let button_y = panel_y + 178;
        if save_exists {
            self.side_button(WIDTH / 2 - 222, button_y, 132, 44, labels::LOAD_SAVE_BUTTON_LABEL, mouse_x, mouse_y);
        } else {
            self.disabled_side_button(WIDTH / 2 - 222, button_y, 132, 44, labels::LOAD_SAVE_BUTTON_LABEL);
        }
        self.side_button(WIDTH / 2 - 66, button_y, 132, 44, labels::RESTART_BUTTON_LABEL, mouse_x, mouse_y);
        self.side_button(WIDTH / 2 + 90, button_y, 132, 44, labels::MAIN_MENU_BUTTON_LABEL, mouse_x, mouse_y);
        self.draw_footer(game.message.as_str());
    }

    /// Draws a whole frame of the current screen. `save_exists` greys out the load buttons
    /// when false; `dragged_card` is the hand card being dragged; `motion` sways the figures
    /// of the expedition map.
    pub fn draw(
        &mut self,
        game: &Game,
        mouse_x: usize,
        mouse_y: usize,
        dragged_card: Option<usize>,
        save_exists: bool,
        motion: &Motion,
    )
        requires
            old(self).wf(),
            drawable(*game),
            pointer_ok(mouse_x, mouse_y),
        ensures
            final(self).wf(),
            final(self).label_data() == old(self).label_data(),
            game.screen == Screen::MainMenu || game.screen == Screen::GameOver || game.screen == Screen::TransitionToBase
                || game.screen == Screen::TransitionToExpedition ==> footer_shows(final(self).frame(), game.message@),
            game.screen == Screen::Base && !base_dialog_open(*game) && hovered_building(*game, mouse_x, mouse_y) is None
                ==> footer_shows(final(self).frame(), game.message@),
            game.screen == Screen::Expedition && game.expedition is Some && !game.show_expedition_bag ==> footer_shows(
                final(self).frame(),
                game.message@,
            ),
            game.screen == Screen::MainMenu ==> forall|i: int|
                0 <= i < PIXELS ==> #[trigger] final(self).frame()[i] == menu_px(old(self).label_data(), *game, mouse_x as int, mouse_y as int, BLACK, i),
            game.screen == Screen::GameOver ==> forall|i: int|
                0 <= i < PIXELS ==> #[trigger] final(self).frame()[i] == game_over_px(
                    old(self).label_data(),
                    *game,
                    mouse_x as int,
                    mouse_y as int,
                    save_exists,
                    BLACK,
                    i,
                ),
            game.screen == Screen::Base ==> forall|i: int|
                0 <= i < PIXELS ==> #[trigger] final(self).frame()[i] == base_px(old(self).label_data(), *game, mouse_x, mouse_y, save_exists, BLACK, i),
            game.screen == Screen::Expedition ==> forall|i: int|
                0 <= i < PIXELS ==> #[trigger] final(self).frame()[i] == expedition_px(
                    old(self).label_data(),
                    *game,
                    mouse_x,
                    mouse_y,
                    dragged_card,
                    *motion,
                    BLACK,
                    i,
                ),
            game.screen == Screen::TransitionToBase ==> forall|i: int|
                0 <= i < PIXELS ==> #[trigger] final(self).frame()[i] == loading_px(
                    0x111820,
                    400,
                    272,
                    480,
                    176,
                    "GRUNTIA"@,
                    514,
                    304,
                    "PREPARING BASE"@,
                    544,
                    360,
                    480,
                    406,
                    320,
                    progress(*game),
                    game.message@,
                    BLACK,
                    i,
                ),
            game.screen == Screen::TransitionToExpedition ==> forall|i: int|
                0 <= i < PIXELS ==> #[trigger] final(self).frame()[i] == loading_px(
                    0x10161d,
                    380,
                    265,
                    520,
                    190,
                    "EXPEDITION"@,
                    486,
                    303,
                    "PREPARING MAP AND DECK"@,
                    508,
                    369,
                    460,
                    415,
                    360,
                    progress(*game),
                    game.message@,
                    BLACK,
                    i,
                ),
            game.screen == Screen::TransitionToBase ==> bar_shows(final(self).frame(), 480, 406, 320, progress(*game)),
            game.screen == Screen::TransitionToExpedition ==> bar_shows(final(self).frame(), 460, 415, 360, progress(*game)),
    {
        self.clear(BLACK);
        match game.screen {
            Screen::MainMenu => self.draw_menu(game, mouse_x, mouse_y),
            Screen::TransitionToBase => self.draw_base_transition(game),
            Screen::TransitionToExpedition => self.draw_expedition_transition(game),
            Screen::Base => self.draw_base(game, mouse_x, mouse_y, save_exists),
            Screen::Expedition => self.draw_expedition(game, mouse_x, mouse_y, dragged_card, motion),
            Screen::GameOver => self.draw_game_over(game, mouse_x, mouse_y, save_exists),
        }
    }
}


/// A figure's sway kept within one dot of the tile.
fn sway(bob: i32, tile_size: usize) -> (r: i32)
    requires
        12 <= tile_size <= 1_000_000,
    ensures
        r == sway_of(bob as int, tile_size as int),
        -dot(tile_size as int) <= r <= dot(tile_size as int),
        -dot(tile_size as int) <= bob <= dot(tile_size as int) ==> r == bob,
{
    let limit: i32 = if tile_size / 12 > 1 { (tile_size / 12) as i32 } else { 1 };
    if bob < -limit {
        -limit
    } else if bob > limit {
        limit
    } else {
        bob
    }
}

} // verus!
