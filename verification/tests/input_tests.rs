use gruntia::card::Card;
use gruntia::data::BuildingKind;
use gruntia::game::{Game, Screen};
use gruntia::card::CardKind;
use gruntia::input::{
    expedition_card_index_at, expedition_hand_card_index_at, expedition_hand_drop_index, expedition_slot_index_at,
    handle_base_input, handle_expedition_input, handle_game_over_input, handle_input, handle_menu_input, is_drawable,
    is_input_ready, is_well_formed, point_in_rect, screen_to_base_tile, InputAction, InputState, KeyState,
};

fn no_keys() -> KeyState {
    KeyState { a_down: false, d_down: false, w_down: false, s_down: false, backspace_pressed: false, escape_pressed: false, digit: None }
}

fn click_at(x: usize, y: usize) -> InputState {
    let mut input = InputState::new();
    input.update(false, false, Some((x, y)), 0);
    input.update(true, false, Some((x, y)), 0);
    input
}

fn base_game() -> Game {
    let mut g = Game::new();
    g.begin_new_campaign_transition();
    g.update(900);
    g
}

#[test]
fn rectangles_include_their_top_left_edge_only() {
    assert!(point_in_rect(10, 20, 10, 20, 5, 5));
    assert!(point_in_rect(14, 24, 10, 20, 5, 5));
    assert!(!point_in_rect(15, 24, 10, 20, 5, 5));
    assert!(!point_in_rect(9, 22, 10, 20, 5, 5));
    assert!(!point_in_rect(12, 25, 10, 20, 5, 5));
}

#[test]
fn preparation_dialog_hit_areas() {
    assert_eq!(expedition_card_index_at(224, 232), Some(0));
    assert_eq!(expedition_card_index_at(350, 300), Some(1));
    assert_eq!(expedition_card_index_at(330, 300), None);
    assert_eq!(expedition_slot_index_at(656, 210), Some(0));
    assert_eq!(expedition_slot_index_at(700, 210 + 4 * 56 + 10), Some(4));
    assert_eq!(expedition_slot_index_at(700, 210 + 5 * 56), None);
    assert_eq!(expedition_hand_card_index_at(28, 608), Some(0));
    assert_eq!(expedition_hand_card_index_at(28 + 108 * 2 + 91, 691), Some(2));
    assert_eq!(expedition_hand_card_index_at(28 + 92, 620), None);
}

#[test]
fn dropping_a_card_picks_the_slot_under_the_pointer() {
    assert_eq!(expedition_hand_drop_index(0), 0);
    assert_eq!(expedition_hand_drop_index(28 + 108 + 10), 1);
    assert_eq!(expedition_hand_drop_index(1279), 4);
}

#[test]
fn mouse_edges_and_movement_are_measured_between_frames() {
    let mut input = InputState::new();
    input.update(false, false, Some((100, 50)), 0);
    assert_eq!((input.mouse_delta_x, input.mouse_delta_y), (0, 0));
    input.update(true, false, Some((90, 70)), 1);
    assert!(input.left_pressed);
    assert!(input.left_down);
    assert_eq!((input.mouse_delta_x, input.mouse_delta_y), (-10, 20));
    assert_eq!(input.scroll_y, 1);
    input.update(false, true, None, 0);
    assert!(input.left_released);
    assert!(input.right_pressed);
    assert_eq!((input.mouse_x, input.mouse_y), (90, 70));
}

#[test]
fn the_main_menu_starts_loads_or_quits() {
    let mut g = Game::new();
    assert_eq!(handle_menu_input(&click_at(600, 340), &mut g), InputAction::Nothing);
    assert_eq!(g.screen, Screen::TransitionToBase);
    let mut g = Game::new();
    assert_eq!(handle_menu_input(&click_at(600, 410), &mut g), InputAction::Load);
    assert_eq!(g.screen, Screen::MainMenu);
    assert_eq!(handle_menu_input(&click_at(600, 480), &mut g), InputAction::Nothing);
    assert!(g.should_quit);
}

#[test]
fn the_game_over_screen_offers_load_restart_and_menu() {
    let mut g = base_game();
    g.screen = Screen::GameOver;
    assert_eq!(handle_game_over_input(&click_at(420, 400), &mut g), InputAction::LoadIfSaved);
    handle_game_over_input(&click_at(600, 400), &mut g);
    assert_eq!(g.screen, Screen::Base);
    g.screen = Screen::GameOver;
    handle_game_over_input(&click_at(740, 400), &mut g);
    assert_eq!(g.screen, Screen::MainMenu);
}

#[test]
fn side_panel_buttons_open_dialogs_and_ask_for_saving() {
    let mut g = base_game();
    assert!(is_input_ready(&g));
    let keys = no_keys();
    assert_eq!(handle_base_input(&click_at(1030, 480), &keys, &mut g), InputAction::Save);
    assert_eq!(handle_base_input(&click_at(1140, 480), &keys, &mut g), InputAction::LoadIfSaved);
    handle_base_input(&click_at(1030, 380), &keys, &mut g);
    assert!(g.show_build_menu);
    handle_base_input(&click_at(1030, 380), &keys, &mut g);
    assert!(g.show_build_menu);
    let mut right = InputState::new();
    right.update(false, true, Some((10, 10)), 0);
    handle_base_input(&right, &keys, &mut g);
    assert!(!g.show_build_menu);
    assert_eq!(g.message, "Build menu closed.");
    handle_base_input(&click_at(1030, 530), &keys, &mut g);
    assert!(g.confirm_quit);
    handle_base_input(&click_at(1030, 620), &keys, &mut g);
    assert_eq!(g.screen, Screen::MainMenu);
}

#[test]
fn clicking_a_base_tile_places_the_selected_building() {
    let mut g = base_game();
    g.select_building(BuildingKind::Campfire);
    let origin = g.base_origin(1000, 696);
    let step = (g.base_tile_size() + g.base_tile_gap()) as i32;
    let x = (origin.0 + 2 * step + 3) as usize;
    let y = (origin.1 + step + 3) as usize;
    assert_eq!(screen_to_base_tile(&g, x, y), Some((2, 1)));
    handle_base_input(&click_at(x, y), &no_keys(), &mut g);
    assert_eq!(g.base.buildings.len(), 1);
    assert_eq!((g.base.buildings[0].x, g.base.buildings[0].y), (2, 1));
    assert_eq!(g.message, "Built Small Storehouse.");
}

#[test]
fn clicking_between_tiles_cancels_the_placement() {
    let mut g = base_game();
    g.select_building(BuildingKind::Campfire);
    let origin = g.base_origin(1000, 696);
    let x = (origin.0 + g.base_tile_size() as i32) as usize;
    let y = (origin.1 + 1) as usize;
    assert_eq!(screen_to_base_tile(&g, x, y), None);
    handle_base_input(&click_at(x, y), &no_keys(), &mut g);
    assert!(g.selected_building.is_none());
    assert_eq!(g.message, "Building placement cancelled.");
}

#[test]
fn the_wheel_and_keys_move_the_base_view() {
    let mut g = base_game();
    g.base.size = 80;
    let mut input = InputState::new();
    input.update(false, false, Some((500, 300)), 1);
    handle_base_input(&input, &no_keys(), &mut g);
    assert_eq!(g.base.zoom_level, 2);
    let keys = KeyState { a_down: false, d_down: true, w_down: false, s_down: true, backspace_pressed: false, escape_pressed: false, digit: None };
    input.update(false, false, Some((500, 300)), 0);
    handle_base_input(&input, &keys, &mut g);
    assert_eq!((g.base.camera_x, g.base.camera_y), (10, 10));
}

#[test]
fn preparation_clicks_build_the_deck() {
    let mut g = base_game();
    g.open_expedition_prep();
    let keys = no_keys();
    handle_base_input(&click_at(230, 240), &keys, &mut g);
    handle_base_input(&click_at(360, 240), &keys, &mut g);
    assert_eq!(g.prep_deck.len(), 2);
    assert_eq!(g.prep_deck[1].id, "gather_scrap");
    handle_base_input(&click_at(660, 215), &keys, &mut g);
    assert_eq!(g.prep_deck.len(), 1);
    assert_eq!(g.prep_deck[0].id, "gather_scrap");
    g.resources = gruntia::data::Resources { wood: 0, stone: 0, food: 10 };
    handle_base_input(&click_at(184 + 520, 136 + 380), &keys, &mut g);
    assert_eq!(g.screen, Screen::TransitionToExpedition);
    assert_eq!(g.pending_expedition_deck.len(), 1);
}

#[test]
fn storage_dialog_keys_edit_the_focused_amount() {
    let mut g = base_game();
    g.show_storage_dialog();
    g.focus_storage_input(1);
    let keys = KeyState { a_down: false, d_down: false, w_down: false, s_down: false, backspace_pressed: false, escape_pressed: false, digit: Some(3) };
    let idle = InputState::new();
    handle_base_input(&idle, &keys, &mut g);
    assert_eq!(g.storage_discard_inputs[1], 3);
}

fn expedition_game() -> Game {
    let mut g = base_game();
    g.open_expedition_prep();
    g.add_prep_card(Card::move_step());
    g.add_prep_card(Card::gather_scrap());
    g.resources = gruntia::data::Resources { wood: 0, stone: 0, food: 10 };
    let deck = g.prep_deck.clone();
    g.start_expedition(deck);
    g.update(750);
    g
}

#[test]
fn dragging_a_hand_card_onto_the_hand_reorders_it() {
    let mut g = expedition_game();
    let first = g.expedition.as_ref().unwrap().hand[0].id.clone();
    let mut input = click_at(40, 620);
    let keys = no_keys();
    handle_expedition_input(&mut input, &keys, &mut g);
    assert_eq!(input.dragged_expedition_card, Some(0));
    input.update(false, false, Some((28 + 108 + 20, 650)), 0);
    handle_expedition_input(&mut input, &keys, &mut g);
    assert_eq!(input.dragged_expedition_card, None);
    assert_eq!(g.expedition.as_ref().unwrap().hand[1].id, first);
    assert_eq!(g.message, "Hand reordered.");
}

#[test]
fn the_bag_opens_and_closes() {
    let mut g = expedition_game();
    let keys = no_keys();
    let mut input = click_at(1150, 620);
    handle_expedition_input(&mut input, &keys, &mut g);
    assert!(g.show_expedition_bag);
    let mut input = click_at(600, 330);
    handle_expedition_input(&mut input, &keys, &mut g);
    assert!(!g.show_expedition_bag);
    assert_eq!(g.message, "Expedition bag closed.");
}

#[test]
fn the_return_button_evacuates() {
    let mut g = expedition_game();
    let mut input = click_at(1150, 670);
    handle_expedition_input(&mut input, &no_keys(), &mut g);
    assert_eq!(g.screen, Screen::Base);
    assert!(g.expedition.is_none());
}

#[test]
fn fresh_games_are_well_formed_drawable_and_ready() {
    let g = Game::new();
    assert!(is_well_formed(&g));
    assert!(is_drawable(&g));
    assert!(is_input_ready(&g));
    let mut bad = Game::new();
    bad.base.zoom_level = 9;
    assert!(!is_well_formed(&bad));
    assert!(!is_drawable(&bad));
    let mut far = Game::new();
    far.base.camera_x = -5;
    assert!(is_well_formed(&far));
    assert!(!is_drawable(&far));
}

fn escape() -> KeyState {
    KeyState { escape_pressed: true, ..no_keys() }
}

#[test]
fn escape_goes_back_outside_the_base_view() {
    let mut g = Game::new();
    let idle = InputState::new();
    let mut input = idle;
    assert_eq!(handle_input(&mut input, &escape(), &mut g), InputAction::Nothing);
    assert!(g.should_quit);
    let mut g = base_game();
    handle_input(&mut input, &escape(), &mut g);
    assert_eq!(g.screen, Screen::Base);
    g.screen = Screen::GameOver;
    handle_input(&mut input, &escape(), &mut g);
    assert_eq!(g.screen, Screen::MainMenu);
    let mut g = expedition_game();
    handle_input(&mut input, &escape(), &mut g);
    assert!(g.expedition.is_none());
    assert_eq!(g.screen, Screen::Base);
}

#[test]
fn the_right_button_cancels_a_placement() {
    let mut g = base_game();
    g.select_building(BuildingKind::Workbench);
    let mut input = InputState::new();
    input.update(false, true, Some((500, 300)), 0);
    handle_base_input(&input, &no_keys(), &mut g);
    assert!(g.selected_building.is_none());
    assert_eq!(g.message, "Building placement cancelled.");
}

#[test]
fn a_movement_card_dropped_on_the_map_waits_for_its_destination() {
    let mut g = expedition_game();
    let index = g.expedition.as_ref().unwrap().hand.iter().position(|c| c.kind == CardKind::Move).unwrap();
    let keys = no_keys();
    let mut input = click_at(28 + 108 * index + 10, 620);
    handle_expedition_input(&mut input, &keys, &mut g);
    assert_eq!(input.dragged_expedition_card, Some(index));
    input.update(false, false, Some((640, 300)), 0);
    handle_expedition_input(&mut input, &keys, &mut g);
    let e = g.expedition.as_ref().unwrap();
    assert!(e.pending_move_card.is_some());
    assert_eq!(g.message, "Choose a highlighted destination.");
    assert_eq!(e.hand.len(), 1);
    // Clicking the player's own tile is no destination.
    let (px, py) = (e.player_x, e.player_y);
    let tile = e.tile_size() as i32;
    let (ox, oy) = e.origin(1280, 588);
    let x = (ox + px * tile + 1) as usize;
    let y = (oy + py * tile + 1) as usize;
    let mut input = click_at(x, y);
    handle_expedition_input(&mut input, &keys, &mut g);
    assert!(g.expedition.as_ref().unwrap().pending_move_card.is_some());
    assert_eq!(g.message, "Choose a highlighted destination.");
}

#[test]
fn storage_rows_adjust_request_and_confirm_a_discard() {
    let mut g = base_game();
    g.resources = gruntia::data::Resources { wood: 5, stone: 0, food: 2 };
    g.discovered_resources = [false; 3];
    g.show_storage_dialog();
    let keys = no_keys();
    // Row 0 shows wood, row 1 food (stone is neither discovered nor held).
    handle_base_input(&click_at(490, 260), &keys, &mut g);
    handle_base_input(&click_at(490, 260), &keys, &mut g);
    assert_eq!(g.storage_discard_inputs[0], 2);
    assert_eq!(g.focused_storage_input, Some(0));
    handle_base_input(&click_at(400, 260), &keys, &mut g);
    assert_eq!(g.storage_discard_inputs[0], 1);
    handle_base_input(&click_at(400, 316), &keys, &mut g);
    assert_eq!(g.storage_discard_inputs[2], 0);
    assert_eq!(g.focused_storage_input, Some(2));
    handle_base_input(&click_at(560, 310), &keys, &mut g);
    assert_eq!(g.message, "Discard amount must be greater than 0.");
    handle_base_input(&click_at(560, 254), &keys, &mut g);
    assert_eq!(g.message, "Confirm discard.");
    assert_eq!(g.pending_storage_discard, Some(0));
    handle_base_input(&click_at(540, 480), &keys, &mut g);
    assert_eq!(g.resources.wood, 4);
    assert_eq!(g.pending_storage_discard, None);
    assert_eq!(g.message, "Discarded 1 material.");
    handle_base_input(&click_at(560, 254), &keys, &mut g);
    assert_eq!(g.message, "Discard amount must be greater than 0.");
    handle_base_input(&click_at(660, 480), &keys, &mut g);
    assert!(!g.show_storage_dialog);
    assert_eq!(g.message, "Storage closed.");
}

#[test]
fn another_click_cancels_a_pending_discard() {
    let mut g = base_game();
    g.resources = gruntia::data::Resources { wood: 5, stone: 0, food: 2 };
    g.show_storage_dialog();
    g.storage_discard_inputs[0] = 2;
    g.request_storage_discard(0);
    assert_eq!(g.pending_storage_discard, Some(0));
    handle_base_input(&click_at(300, 200), &no_keys(), &mut g);
    assert_eq!(g.pending_storage_discard, None);
    assert_eq!(g.message, "Discard cancelled.");
    assert_eq!(g.resources.wood, 5);
}

#[test]
fn the_build_menu_switches_tabs_and_chooses_a_building() {
    let mut g = base_game();
    g.open_build_menu();
    let keys = no_keys();
    handle_base_input(&click_at(300, 320), &keys, &mut g);
    assert_eq!(g.build_menu_category, 1);
    assert_eq!(g.message, "Choose a building.");
    g.resources = gruntia::data::Resources { wood: 0, stone: 0, food: 0 };
    handle_base_input(&click_at(520, 290), &keys, &mut g);
    assert_eq!(g.message, "Not enough resources.");
    assert!(g.show_build_menu);
    handle_base_input(&click_at(300, 270), &keys, &mut g);
    assert_eq!(g.build_menu_category, 0);
    g.resources = gruntia::data::Resources { wood: 10, stone: 10, food: 0 };
    handle_base_input(&click_at(520, 290), &keys, &mut g);
    assert_eq!(g.selected_building, Some(BuildingKind::Campfire));
    assert!(!g.show_build_menu);
    g.open_build_menu();
    handle_base_input(&click_at(520, 390), &keys, &mut g);
    assert!(!g.show_build_menu);
    assert_eq!(g.message, "Build menu closed.");
}

#[test]
fn a_quit_confirmation_is_cancelled_by_any_other_click() {
    let mut g = base_game();
    let keys = no_keys();
    handle_base_input(&click_at(1030, 530), &keys, &mut g);
    assert!(g.confirm_quit);
    handle_base_input(&click_at(1140, 620), &keys, &mut g);
    assert!(!g.confirm_quit);
    assert_eq!(g.message, "Quit cancelled.");
    assert_eq!(g.screen, Screen::Base);
}

#[test]
fn the_preparation_cancel_button_empties_the_deck() {
    let mut g = base_game();
    g.open_expedition_prep();
    let keys = no_keys();
    handle_base_input(&click_at(230, 240), &keys, &mut g);
    assert_eq!(g.prep_deck.len(), 1);
    handle_base_input(&click_at(590, 520), &keys, &mut g);
    assert!(!g.show_expedition_prep);
    assert_eq!(g.prep_deck.len(), 0);
    assert_eq!(g.message, "Expedition preparation cancelled.");
}

#[test]
fn a_right_click_cancel_keeps_buildings_stock_and_screen() {
    let mut g = base_game();
    g.select_building(BuildingKind::Workbench);
    let buildings = g.base.buildings.len();
    let (wood, stone, food) = (g.resources.wood, g.resources.stone, g.resources.food);
    let mut input = InputState::new();
    input.update(false, true, Some((500, 300)), 0);
    handle_base_input(&input, &no_keys(), &mut g);
    assert!(g.selected_building.is_none());
    assert_eq!(g.base.buildings.len(), buildings);
    assert_eq!((g.resources.wood, g.resources.stone, g.resources.food), (wood, stone, food));
    assert_eq!(g.screen, Screen::Base);
}

#[test]
fn a_frame_without_presses_only_moves_the_view() {
    let mut g = base_game();
    let mut input = InputState::new();
    input.update(false, false, Some((500, 300)), 1);
    let before = g.base.zoom_level;
    let wood = g.resources.wood;
    handle_base_input(&input, &no_keys(), &mut g);
    assert_eq!(g.base.zoom_level, before + 1);
    assert_eq!(g.resources.wood, wood);
    assert!(g.selected_building.is_none());
}

#[test]
fn a_digit_and_backspace_in_one_storage_frame_cancel_out() {
    let mut g = base_game();
    g.show_storage_dialog();
    g.resources = gruntia::data::Resources { wood: 50, stone: 50, food: 50 };
    g.focus_storage_input(1);
    g.storage_discard_inputs[1] = 2;
    let keys = KeyState { a_down: false, d_down: false, w_down: false, s_down: false, backspace_pressed: true, escape_pressed: false, digit: Some(3) };
    let idle = InputState::new();
    handle_base_input(&idle, &keys, &mut g);
    assert_eq!(g.storage_discard_inputs[1], 2);
}

#[test]
fn a_started_expedition_map_holds_forests_and_other_resources() {
    let g = expedition_game();
    let e = g.expedition.as_ref().unwrap();
    assert_eq!((e.map.width, e.map.height), (32, 32));
    let forests = e.map.tiles.iter().filter(|t| **t == gruntia::map::Tile::Forest).count();
    let non_ground = e.map.tiles.iter().filter(|t| **t != gruntia::map::Tile::Ground).count();
    assert!(forests > 0);
    assert!(non_ground >= 10);
    assert_eq!(e.map.tiles[(e.player_y * 32 + e.player_x) as usize], gruntia::map::Tile::Ground);
}

#[test]
fn input_is_ready_with_more_than_five_prepared_cards() {
    let mut g = base_game();
    g.open_expedition_prep();
    for _ in 0..6 {
        g.prep_deck.push(Card::move_step());
    }
    assert!(is_input_ready(&g));
    handle_base_input(&InputState::new(), &no_keys(), &mut g);
    assert_eq!(g.prep_deck.len(), 6);
}

#[test]
fn a_digit_is_ready_only_while_the_amount_stays_in_range() {
    let mut g = base_game();
    g.show_storage_dialog();
    g.focus_storage_input(0);
    let keys = |d: i32| KeyState { a_down: false, d_down: false, w_down: false, s_down: false, backspace_pressed: false, escape_pressed: false, digit: Some(d) };
    g.storage_discard_inputs[0] = 214_748_364;
    assert!(gruntia::input::is_digit_ready(&g, &keys(7)));
    assert!(!gruntia::input::is_digit_ready(&g, &keys(8)));
    assert!(is_input_ready(&g));
    g.storage_discard_inputs[0] = 214_748_365;
    assert!(!gruntia::input::is_digit_ready(&g, &keys(0)));
}
