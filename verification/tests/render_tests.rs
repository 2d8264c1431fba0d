use gruntia::card::Card;
use gruntia::data::{BuildingKind, Resources};
use gruntia::font::glyph;
use gruntia::game::{Game, Screen};
use gruntia::labels::{death_label, is_bitmap_ok, label_width, DEATH_CHARACTERS_LABEL, DEATH_FOOD_LABEL, QUIT_LABEL};
use gruntia::render::{blend_color as blend, Renderer, HEIGHT, WIDTH};
use gruntia::screens::{building_color, is_ruin_anchor, Motion};
use gruntia::input::{handle_base_input, InputState, KeyState};
use gruntia::map::{ExplorationMap, Tile};

fn pixel(r: &Renderer, x: usize, y: usize) -> u32 {
    r.buffer()[y * WIDTH + x]
}

#[test]
fn a_new_frame_is_black() {
    let r = Renderer::new();
    assert_eq!(r.buffer().len(), WIDTH * HEIGHT);
    assert!(r.buffer().iter().all(|&p| p == 0));
}

#[test]
fn rectangles_are_cut_at_the_window_edge() {
    let mut r = Renderer::new();
    r.rect(1270, 715, 20, 20, 0x123456);
    assert_eq!(pixel(&r, 1270, 715), 0x123456);
    assert_eq!(pixel(&r, 1279, 719), 0x123456);
    assert_eq!(pixel(&r, 1269, 719), 0);
    assert_eq!(pixel(&r, 1279, 714), 0);
    r.clear(7);
    assert!(r.buffer().iter().all(|&p| p == 7));
}

#[test]
fn clipped_rectangles_stay_inside_the_clip_box() {
    let mut r = Renderer::new();
    r.rect_clipped(-5, -5, 20, 20, 0xff0000, (2, 3, 100, 100));
    assert_eq!(pixel(&r, 2, 3), 0xff0000);
    assert_eq!(pixel(&r, 14, 14), 0xff0000);
    assert_eq!(pixel(&r, 15, 14), 0);
    assert_eq!(pixel(&r, 1, 5), 0);
    assert_eq!(pixel(&r, 5, 2), 0);
    r.rect_clipped(500, 500, 10, 10, 0x00ff00, (0, 0, 100, 100));
    assert!(r.buffer().iter().all(|&p| p != 0x00ff00));
}

#[test]
fn blending_mixes_each_channel_by_opacity() {
    assert_eq!(blend(0xffffff, 0x000000, 255), 0xfefefe);
    assert_eq!(blend(0xffffff, 0x000000, 0), 0);
    assert_eq!(blend(0x0000ff, 0xff0000, 128), 0x7e007f);
    let mut r = Renderer::new();
    r.clear(0x000000);
    r.blend_pixel(3, 4, 0xffffff, 128);
    assert_eq!(pixel(&r, 3, 4), blend(0xffffff, 0, 128));
    assert_eq!(pixel(&r, 4, 4), 0);
    r.blend_pixel(5000, 4, 0xffffff, 128);
    r.blend_rect_clipped(10, 10, 2, 2, 0xffffff, 104, (0, 0, 11, 11));
    assert_eq!(pixel(&r, 10, 10), blend(0xffffff, 0, 104));
    assert_eq!(pixel(&r, 11, 10), 0);
}

#[test]
fn glyphs_are_five_by_seven_and_case_blind() {
    assert_eq!(glyph('A'), [0x0e, 0x11, 0x11, 0x1f, 0x11, 0x11, 0x11]);
    assert_eq!(glyph('a'), glyph('A'));
    assert_eq!(glyph(' '), [0; 7]);
    assert_eq!(glyph('~'), [0x1f, 0x11, 0x05, 0x02, 0x05, 0x11, 0x1f]);
    assert_eq!(glyph('7'), [0x1f, 0x01, 0x02, 0x04, 0x08, 0x08, 0x08]);
}

#[test]
fn characters_are_drawn_dot_by_dot() {
    let mut r = Renderer::new();
    r.draw_char('T', 10, 20, 2, 0xffffff);
    // The top row of T is full: five dots of two pixels.
    for x in 10..20 {
        assert_eq!(pixel(&r, x, 20), 0xffffff);
        assert_eq!(pixel(&r, x, 21), 0xffffff);
    }
    // Below the top row only the middle column is lit.
    assert_eq!(pixel(&r, 14, 22), 0xffffff);
    assert_eq!(pixel(&r, 12, 22), 0);
    assert_eq!(pixel(&r, 14, 34), 0);
}

#[test]
fn text_advances_six_dots_per_character() {
    let mut r = Renderer::new();
    r.draw_text("I-", 0, 0, 1, 0xffffff);
    assert_eq!(pixel(&r, 2, 0), 0xffffff);
    assert_eq!(pixel(&r, 6 + 0, 3), 0xffffff);
    assert_eq!(pixel(&r, 6 + 4, 3), 0xffffff);
    assert_eq!(pixel(&r, 6 + 5, 3), 0);
    let mut r = Renderer::new();
    r.draw_text("\u{e9}I", 0, 0, 1, 0xffffff);
    assert_eq!(pixel(&r, 0, 0), 0);
    assert_eq!(pixel(&r, 8, 0), 0xffffff);
    let mut r = Renderer::new();
    r.draw_text("IIII", 1270, 0, 1, 0xffffff);
    assert_eq!(pixel(&r, 1272, 0), 0xffffff);
}

#[test]
fn labels_are_drawn_centered_from_their_bitmaps() {
    let bitmap = vec![2, 0, 2, 0, 255, 0, 9, 8];
    assert!(is_bitmap_ok(&bitmap));
    assert!(!is_bitmap_ok(&[3, 0, 3, 0, 1]));
    assert_eq!(label_width(&bitmap), 2);
    assert_eq!(label_width(&[1]), 0);
    let mut r = Renderer::new();
    r.set_label(QUIT_LABEL, bitmap);
    assert_eq!(r.label_width_of(QUIT_LABEL), 2);
    r.draw_label(QUIT_LABEL, 100, 50, 0xffffff);
    assert_eq!(pixel(&r, 99, 49), blend(0xffffff, 0, 255));
    assert_eq!(pixel(&r, 100, 49), 0);
    assert_eq!(pixel(&r, 99, 50), blend(0xffffff, 0, 9));
    assert_eq!(pixel(&r, 100, 50), 0);
}

#[test]
fn the_game_over_label_follows_the_message() {
    assert_eq!(death_label("Evacuated with 0 wood, but FOOD was below 3."), DEATH_FOOD_LABEL);
    assert_eq!(death_label("All characters are dead. Campaign failed."), DEATH_CHARACTERS_LABEL);
    assert_eq!(death_label("Foo"), DEATH_CHARACTERS_LABEL);
}

#[test]
fn buildings_under_placement_have_their_color() {
    assert_eq!(building_color(BuildingKind::Workbench), 0x88a65e);
    assert_eq!(building_color(BuildingKind::ResearchTable), 0x6b8fd6);
}

#[test]
fn ruins_are_drawn_from_their_top_left_tile() {
    let mut tiles = vec![Tile::Ground; 9];
    for &(x, y) in &[(1, 1), (2, 1), (1, 2), (2, 2)] {
        tiles[y * 3 + x] = Tile::Ruin;
    }
    let m = ExplorationMap { width: 3, height: 3, tiles };
    assert!(is_ruin_anchor(&m, 1, 1));
    assert!(!is_ruin_anchor(&m, 2, 1));
    assert!(!is_ruin_anchor(&m, 1, 2));
}

fn still() -> Motion {
    Motion { player_bob: 0, enemy_bobs: Vec::new() }
}

#[test]
fn every_screen_draws_a_whole_frame() {
    let mut r = Renderer::new();
    let mut g = Game::new();
    r.draw(&g, 600, 340, None, false, &still());
    assert_eq!(pixel(&r, 0, 0), 0x1a2028);
    g.begin_new_campaign_transition();
    g.update(450);
    r.draw(&g, 0, 0, None, false, &still());
    // The progress bar is half filled.
    assert_eq!(pixel(&r, 400 + 80 + 159, 272 + 134), 0xd7c59a);
    assert_eq!(pixel(&r, 400 + 80 + 161, 272 + 134), 0x151a22);
    g.update(450);
    assert_eq!(g.screen, Screen::Base);
    g.confirm_quit = true;
    g.selected_building = Some(BuildingKind::Campfire);
    r.draw(&g, 500, 340, None, true, &still());
    assert_eq!(pixel(&r, 1279, 0), 0x202632);
    g.selected_building = None;
    for dialog in 0..5 {
        let mut d = g.clone();
        match dialog {
            0 => d.show_storage_dialog(),
            1 => d.show_character_dialog(),
            2 => d.show_crafting_dialog = true,
            3 => d.open_build_menu(),
            _ => d.open_expedition_prep(),
        }
        r.draw(&d, 460, 300, None, false, &still());
    }
    g.resources = Resources { wood: 0, stone: 0, food: 10 };
    g.open_expedition_prep();
    g.add_prep_card(Card::move_step());
    g.add_prep_card(Card::gather_scrap());
    let deck = g.prep_deck.clone();
    g.start_expedition(deck);
    r.draw(&g, 0, 0, None, false, &still());
    g.update(750);
    assert_eq!(g.screen, Screen::Expedition);
    r.draw(&g, 40, 620, Some(0), false, &still());
    r.draw(&g, 640, 300, Some(1), false, &Motion { player_bob: 1, enemy_bobs: vec![1; 32 * 24] });
    g.show_expedition_bag();
    r.draw(&g, 600, 330, None, false, &still());
    g.screen = Screen::GameOver;
    g.message = "food was below 3".to_string();
    r.draw(&g, 420, 400, None, true, &still());
    assert_eq!(pixel(&r, 0, 0), 0x22181b);
}

#[test]
fn buttons_light_up_under_the_pointer() {
    let mut r = Renderer::new();
    r.side_button(100, 100, 50, 20, QUIT_LABEL, 0, 0);
    assert_eq!(pixel(&r, 100, 100), 0xd7c59a);
    assert_eq!(pixel(&r, 110, 110), 0xbda87c);
    r.side_button(100, 100, 50, 20, QUIT_LABEL, 120, 110);
    assert_eq!(pixel(&r, 100, 100), 0xf0d060);
    assert_eq!(pixel(&r, 110, 110), 0xe6c66d);
    r.disabled_side_button(200, 100, 50, 20, QUIT_LABEL);
    assert_eq!(pixel(&r, 200, 100), 0x59606a);
    assert_eq!(pixel(&r, 210, 110), 0x3f4650);
    r.category_button(300, 100, 60, 20, QUIT_LABEL, true, 0, 0);
    assert_eq!(pixel(&r, 301, 110), 0xe6b450);
    assert_eq!(pixel(&r, 320, 110), 0x3a4654);
}

#[test]
fn the_arrow_button_draws_inside_its_box() {
    let mut r = Renderer::new();
    r.arrow_button(40, 40, 26, 32, true, 0, 0);
    assert_eq!(pixel(&r, 40, 40), 0xd7c59a);
    assert_eq!(pixel(&r, 39, 40), 0);
    assert_eq!(pixel(&r, 53, 56), 0x0f1117);
    let black = r.buffer().iter().filter(|&&p| p == 0x0f1117).count();
    assert!(black > 0);
}

#[test]
fn the_warning_icon_and_the_message_bar() {
    let mut r = Renderer::new();
    r.warning_icon(10, 10);
    assert_eq!(pixel(&r, 10, 10), 0xb94b4b);
    assert_eq!(pixel(&r, 17, 14), 0xe8edf2);
    assert_eq!(pixel(&r, 17, 23), 0xe8edf2);
    r.draw_footer("I");
    assert_eq!(pixel(&r, 0, 700), 0x11151c);
    assert_eq!(pixel(&r, 13, 703), 0x9aa5b1);
    assert_eq!(pixel(&r, 12, 703), 0x11151c);
}

#[test]
fn material_icons_and_cost_parts() {
    let mut r = Renderer::new();
    r.draw_resource_icon(0, 0, 0, 36);
    assert_eq!(pixel(&r, 12, 4), 0xb57945);
    assert_eq!(pixel(&r, 0, 0), 0);
    let mut x = 100;
    r.draw_cost_part(1, 0, 5, &mut x, 50);
    assert_eq!(x, 100);
    r.draw_cost_part(1, 3, 2, &mut x, 50);
    assert_eq!(x, 156);
    assert_eq!(pixel(&r, 100, 61), 0xe06c75);
}

#[test]
fn a_building_under_the_pointer_shows_its_tooltip() {
    let mut g = Game::new();
    g.begin_new_campaign_transition();
    g.update(900);
    g.select_building(BuildingKind::Campfire);
    let origin = g.base_origin(1000, 696);
    let step = (g.base_tile_size() + g.base_tile_gap()) as i32;
    let x = (origin.0 + 2 * step + 3) as usize;
    let y = (origin.1 + step + 3) as usize;
    let mut input = InputState::new();
    input.update(false, false, Some((x, y)), 0);
    input.update(true, false, Some((x, y)), 0);
    let keys = KeyState { a_down: false, d_down: false, w_down: false, s_down: false, backspace_pressed: false, escape_pressed: false, digit: None };
    handle_base_input(&input, &keys, &mut g);
    assert_eq!(g.base.buildings.len(), 1);
    let mut r = Renderer::new();
    r.draw(&g, x, y, None, false, &still());
    // An empty label gives a 24 by 28 box just past the pointer.
    assert_eq!(pixel(&r, x + 15, y + 15), 0x1c2330);
    // Away from the building there is no tooltip, and the message bar shows.
    let far_x = (origin.0 + 3) as usize;
    let far_y = (origin.1 + 3 * step + 3) as usize;
    r.draw(&g, far_x, far_y, None, false, &still());
    assert_ne!(pixel(&r, far_x + 15, far_y + 15), 0x1c2330);
    assert_eq!(pixel(&r, 1270, 710), 0x11151c);
}

#[test]
fn arrows_are_eleven_rows_widest_in_the_middle() {
    let mut r = Renderer::new();
    r.arrow_button(40, 40, 26, 32, true, 0, 0);
    let (mx, my) = (53, 56);
    // The middle row reaches two pixels plus half of five past the center.
    assert_eq!(pixel(&r, mx + 3, my), 0x0f1117);
    assert_eq!(pixel(&r, mx + 4, my), 0xbda87c);
    assert_eq!(pixel(&r, mx - 1, my), 0xbda87c);
    // The first and last rows are one stroke wide; the rows beyond are face.
    assert_eq!(pixel(&r, mx + 1, my - 5), 0x0f1117);
    assert_eq!(pixel(&r, mx + 2, my - 5), 0xbda87c);
    assert_eq!(pixel(&r, mx + 1, my + 5), 0x0f1117);
    assert_eq!(pixel(&r, mx, my - 6), 0xbda87c);
    assert_eq!(pixel(&r, mx, my + 6), 0xbda87c);
    let mut l = Renderer::new();
    l.arrow_button(40, 40, 26, 32, false, 0, 0);
    assert_eq!(pixel(&l, mx - 2, my), 0x0f1117);
    assert_eq!(pixel(&l, mx - 3, my), 0xbda87c);
    assert_eq!(pixel(&l, mx + 1, my), 0x0f1117);
    assert_eq!(pixel(&l, mx + 2, my), 0xbda87c);
}

#[test]
fn dialogs_dim_the_base_view_and_draw_their_panels() {
    let mut g = Game::new();
    g.begin_new_campaign_transition();
    g.update(900);
    let mut r = Renderer::new();
    let mut d = g.clone();
    d.show_storage_dialog();
    r.draw(&d, 0, 0, None, false, &still());
    assert_eq!(pixel(&r, 5, 5), 0x11151c);
    assert_eq!(pixel(&r, 201, 160), 0x202632);
    assert_eq!(pixel(&r, 210, 170), 0x252d3a);
    let mut d = g.clone();
    d.show_character_dialog();
    r.draw(&d, 0, 0, None, false, &still());
    assert_eq!(pixel(&r, 5, 5), 0x11151c);
    assert_eq!(pixel(&r, 261, 199), 0x202632);
    let mut d = g.clone();
    d.show_crafting_dialog = true;
    r.draw(&d, 0, 0, None, false, &still());
    assert_eq!(pixel(&r, 320, 312), 0x1c2330);
    let mut d = g.clone();
    d.open_build_menu();
    r.draw(&d, 0, 0, None, false, &still());
    // The active tab carries a stripe on its left edge.
    assert_eq!(pixel(&r, 291, 263), 0xe6b450);
    let mut d = g.clone();
    d.open_expedition_prep();
    r.draw(&d, 0, 0, None, false, &still());
    // Every slot of an empty deck is drawn empty.
    assert_eq!(pixel(&r, 657, 211), 0xd7c59a);
    assert_eq!(pixel(&r, 661, 215), 0x333a46);
    assert_eq!(pixel(&r, 661, 215 + 4 * 56), 0x333a46);
}

#[test]
fn the_menu_button_under_the_pointer_is_lit() {
    let mut r = Renderer::new();
    let g = Game::new();
    r.draw(&g, 600, 340, None, false, &still());
    assert_eq!(pixel(&r, 411, 171), 0x202632);
    // New game is under the pointer: lit rim and underline.
    assert_eq!(pixel(&r, 500, 324), 0xf0d060);
    assert_eq!(pixel(&r, 510, 324 + 54 - 8), 0x6f5930);
    // Load game is not.
    assert_eq!(pixel(&r, 500, 394), 0xd7c59a);
    assert_eq!(pixel(&r, 510, 394 + 54 - 8), 0xbda87c);
}

#[test]
fn a_huge_building_icon_at_the_origin_is_cut_to_the_base_view() {
    let mut r = Renderer::new();
    r.draw_base_building_icon(gruntia::data::BuildingKind::Storehouse, 0, 0, 2_000_000, (0, 0, 1000, 696));
    // The storehouse's walls start two dots of 166,666 pixels in, far beyond the view.
    assert_eq!(pixel(&r, 0, 0), 0);
    assert_eq!(pixel(&r, 999, 695), 0);
    assert_eq!(pixel(&r, 1100, 100), 0);
}

#[test]
fn an_icon_with_a_negative_position_only_paints_inside_the_view() {
    let mut r = Renderer::new();
    r.draw_base_building_icon(gruntia::data::BuildingKind::Campfire, -24, -24, 48, (0, 0, 1000, 696));
    // The campfire's base, dots of 4 pixels from (-16, -4), reaches into the view's corner.
    assert_eq!(pixel(&r, 0, 0), 0x6b4a2f);
    assert_eq!(pixel(&r, 20, 20), 0);
}
