use gruntia::card::{Card, CardKind};
use gruntia::data::{BuildingKind, Resources};
use gruntia::game::{
    building_cost, default_base_zoom, default_discovered_resources, default_enemy_alert_range, default_enemy_move_speed,
    default_expedition_zoom, default_storage_capacity, default_storage_discard_inputs, DepartBlockReason, Game, Screen,
};

fn base_game() -> Game {
    let mut g = Game::new();
    g.begin_new_campaign_transition();
    g.update(900);
    g
}

#[test]
fn a_new_game_waits_at_the_main_menu() {
    let g = Game::new();
    assert_eq!(g.screen, Screen::MainMenu);
    assert_eq!(g.message, "Select a menu option.");
    assert_eq!(g.base.size, 5);
    assert_eq!(g.base.storage_capacity, 10);
    assert_eq!(g.resources.wood, 8);
    assert!(g.expedition.is_none());
    assert_eq!(g.window_title(), "Gruntia | MainMenu | Select a menu option.");
}

#[test]
fn the_loading_screen_lasts_nine_hundred_milliseconds() {
    let mut g = Game::new();
    g.begin_new_campaign_transition();
    assert_eq!(g.screen, Screen::TransitionToBase);
    assert_eq!(g.message, "Preparing base...");
    assert_eq!(g.transition_progress(), 0);
    g.update(450);
    assert_eq!(g.screen, Screen::TransitionToBase);
    assert_eq!(g.transition_progress(), 500);
    g.update(449);
    assert_eq!(g.screen, Screen::TransitionToBase);
    g.update(1);
    assert_eq!(g.screen, Screen::Base);
    assert_eq!(g.message, "New campaign started. B build, T research, E explore.");
}

#[test]
fn building_a_small_storehouse_costs_four_wood_and_adds_capacity() {
    let mut g = base_game();
    g.open_build_menu();
    assert!(g.show_build_menu);
    assert_eq!(g.message, "Choose a building.");
    g.select_building(BuildingKind::Campfire);
    assert!(!g.show_build_menu);
    assert_eq!(g.message, "Selected Small Storehouse. Click a base tile.");
    g.place_selected_building(2, 3);
    assert_eq!(g.message, "Built Small Storehouse.");
    assert_eq!(g.resources.wood, 4);
    assert_eq!(g.base.storage_capacity, 20);
    assert_eq!(g.base.buildings.len(), 1);
    assert_eq!((g.base.buildings[0].x, g.base.buildings[0].y), (2, 3));
    assert!(g.selected_building.is_none());
    assert!(g.has_building(BuildingKind::Campfire));
    assert!(!g.has_building(BuildingKind::Workbench));
}

#[test]
fn placement_outside_the_base_or_on_a_building_is_refused() {
    let mut g = base_game();
    g.select_building(BuildingKind::Campfire);
    g.place_selected_building(5, 0);
    assert_eq!(g.message, "Cannot build outside the base.");
    g.place_selected_building(-1, 2);
    assert_eq!(g.message, "Cannot build outside the base.");
    g.place_selected_building(0, 0);
    g.select_building(BuildingKind::Campfire);
    g.place_selected_building(0, 0);
    assert_eq!(g.message, "That tile is already occupied.");
    assert_eq!(g.base.buildings.len(), 1);
}

#[test]
fn placement_without_the_materials_is_refused() {
    let mut g = base_game();
    g.resources = Resources { wood: 3, stone: 0, food: 10 };
    g.select_building(BuildingKind::Campfire);
    g.place_selected_building(1, 1);
    assert_eq!(g.message, "Not enough resources to build.");
    assert_eq!(g.base.buildings.len(), 0);
    assert_eq!(g.resources.wood, 3);
}

#[test]
fn building_costs() {
    let c = building_cost(BuildingKind::Campfire);
    assert_eq!((c.wood, c.stone, c.food), (4, 0, 0));
    let c = building_cost(BuildingKind::Workbench);
    assert_eq!((c.wood, c.stone, c.food), (5, 1, 0));
    let c = building_cost(BuildingKind::TrainingDummy);
    assert_eq!((c.wood, c.stone, c.food), (3, 0, 1));
}

#[test]
fn research_needs_a_research_table_then_materials() {
    let mut g = base_game();
    g.unlock_first_technology();
    assert_eq!(g.message, "Build a Research Table first.");
    g.base.buildings.push(gruntia::data::Building { kind: BuildingKind::ResearchTable, x: 0, y: 0, level: 1 });
    g.resources = Resources { wood: 4, stone: 9, food: 10 };
    g.unlock_first_technology();
    assert_eq!(g.message, "Need 5 wood and 5 stone for Base Expansion I.");
    g.resources = Resources { wood: 6, stone: 5, food: 10 };
    g.unlock_first_technology();
    assert_eq!(g.message, "Unlocked Base Expansion I. Base expanded.");
    assert!(g.technologies[0].unlocked);
    assert_eq!(g.base.size, 13);
    assert_eq!((g.resources.wood, g.resources.stone), (1, 0));
    g.unlock_first_technology();
    assert_eq!(g.message, "Technology already unlocked.");
}

#[test]
fn the_expedition_deck_holds_five_cards() {
    let mut g = base_game();
    g.open_expedition_prep();
    assert!(g.show_expedition_prep);
    assert_eq!(g.message, "Choose cards for the expedition.");
    for n in 1..=5 {
        g.add_prep_card(Card::move_step());
        assert_eq!(g.message, format!("Selected {} card(s).", n));
    }
    g.add_prep_card(Card::gather_scrap());
    assert_eq!(g.message, "The expedition deck is full.");
    assert_eq!(g.prep_deck.len(), 5);
    g.remove_prep_card(1);
    assert_eq!(g.prep_deck.len(), 4);
    assert_eq!(g.message, "Selected 4 card(s).");
    g.remove_prep_card(7);
    assert_eq!(g.prep_deck.len(), 4);
    g.close_expedition_prep();
    assert!(g.prep_deck.is_empty());
    assert_eq!(g.message, "Expedition preparation cancelled.");
}

#[test]
fn departure_is_blocked_for_each_reason() {
    let mut g = base_game();
    g.open_expedition_prep();
    assert_eq!(g.depart_block_reason(), Some(DepartBlockReason::EmptyDeck));
    g.start_expedition(Vec::new());
    assert_eq!(g.message, "Choose at least one card before departing.");
    g.add_prep_card(Card::gather_scrap());
    g.resources.food = 0;
    assert_eq!(g.prep_food_cost(), 1);
    assert_eq!(g.depart_block_reason(), Some(DepartBlockReason::Food));
    assert_eq!(DepartBlockReason::Food.message(), "Not enough food to depart.");
    g.resources = Resources { wood: 20, stone: 0, food: 5 };
    assert_eq!(g.depart_block_reason(), Some(DepartBlockReason::Capacity));
    assert_eq!(
        DepartBlockReason::Capacity.message(),
        "Storage would remain over capacity after preparation."
    );
}

fn expedition_game() -> Game {
    let mut g = base_game();
    g.resources = Resources { wood: 0, stone: 0, food: 10 };
    g.open_expedition_prep();
    for _ in 0..3 {
        g.add_prep_card(Card::move_step());
    }
    g.add_prep_card(Card::gather_scrap());
    g.add_prep_card(Card::gather_scrap());
    let deck = g.prep_deck.clone();
    g.start_expedition(deck);
    g
}

#[test]
fn departing_pays_the_deck_food_and_loads_the_map() {
    let mut g = expedition_game();
    assert_eq!(g.message, "Departing for the expedition...");
    assert_eq!(g.screen, Screen::TransitionToExpedition);
    assert_eq!(g.resources.food, 8);
    assert!(g.prep_deck.is_empty());
    assert_eq!(g.pending_expedition_deck.len(), 5);
    g.update(749);
    assert!(g.expedition.is_none());
    g.update(1);
    assert_eq!(g.screen, Screen::Expedition);
    assert_eq!(g.message, "Expedition started. Drag cards to play.");
    let e = g.expedition.as_ref().unwrap();
    assert_eq!((e.map.width, e.map.height), (32, 32));
    assert_eq!(e.hand.len(), 5);
    assert_eq!(e.deck.len() + e.discard.len(), 0);
    let moves = e.hand.iter().filter(|c| c.kind == CardKind::Move).count();
    assert_eq!(moves, 3);
    assert!(g.pending_expedition_deck.is_empty());
}

#[test]
fn evacuating_brings_the_cargo_home_and_eats_three_food() {
    let mut g = expedition_game();
    g.update(750);
    g.expedition.as_mut().unwrap().cargo = Resources { wood: 2, stone: 1, food: 4 };
    g.evacuate();
    assert_eq!(g.screen, Screen::Base);
    assert!(g.expedition.is_none());
    assert_eq!(g.message, "Evacuated with 2 wood, 1 stone, 4 food. Consumed 3 food.");
    assert_eq!((g.resources.wood, g.resources.stone, g.resources.food), (2, 1, 9));
}

#[test]
fn evacuating_hungry_fails_the_campaign() {
    let mut g = expedition_game();
    g.update(750);
    g.resources.food = 1;
    g.expedition.as_mut().unwrap().cargo = Resources { wood: 0, stone: 0, food: 1 };
    g.evacuate();
    assert_eq!(g.screen, Screen::GameOver);
    assert_eq!(g.message, "Evacuated with 0 wood, 0 stone, 1 food, but food was below 3. Campaign failed.");
    assert_eq!(g.resources.food, 2);
}

#[test]
fn the_campaign_fails_when_every_character_is_dead() {
    let mut g = base_game();
    for c in g.characters.iter_mut() {
        c.alive = false;
    }
    g.update(16);
    assert_eq!(g.screen, Screen::GameOver);
    assert_eq!(g.message, "All characters are dead. Campaign failed.");
}

#[test]
fn escape_walks_back_through_the_screens() {
    let mut g = base_game();
    g.back_or_quit();
    assert_eq!(g.screen, Screen::MainMenu);
    assert_eq!(g.message, "Select a menu option.");
    assert!(!g.should_quit);
    g.back_or_quit();
    assert!(g.should_quit);
}

#[test]
fn storage_discard_asks_for_confirmation() {
    let mut g = base_game();
    g.show_storage_dialog();
    assert_eq!(g.message, "Storage opened.");
    assert_eq!(g.visible_storage_indices(), vec![0, 1, 2]);
    g.focus_storage_input(0);
    g.append_storage_discard_digit(1);
    assert_eq!(g.storage_discard_inputs[0], 1);
    g.append_storage_discard_digit(2);
    assert_eq!(g.storage_discard_inputs[0], 8);
    g.backspace_storage_discard_input();
    assert_eq!(g.storage_discard_inputs[0], 0);
    g.adjust_storage_discard_input(0, 3);
    assert_eq!(g.storage_discard_inputs[0], 3);
    g.request_storage_discard(0);
    assert_eq!(g.message, "Confirm discard.");
    assert_eq!(g.pending_storage_discard, Some(0));
    g.confirm_storage_discard();
    assert_eq!(g.resources.wood, 5);
    assert!(g.pending_storage_discard.is_none());
    g.storage_discard_inputs[1] = 0;
    g.request_storage_discard(1);
    assert_eq!(g.message, "Discard amount must be greater than 0.");
    g.storage_discard_inputs[1] = 5;
    g.request_storage_discard(1);
    assert_eq!(g.message, "Not enough material to discard.");
    g.storage_discard_inputs[2] = 2;
    g.request_storage_discard(2);
    g.cancel_storage_discard();
    assert_eq!(g.message, "Discard cancelled.");
    assert_eq!(g.resources.food, 10);
    g.hide_storage_dialog();
    assert_eq!(g.message, "Storage closed.");
}

#[test]
fn storage_counts_used_space_against_capacity() {
    let mut g = base_game();
    assert_eq!(g.storage_used(), 22);
    assert_eq!(g.storage_capacity(), 10);
    assert!(g.storage_is_over_capacity());
    g.resources = Resources { wood: 3, stone: 3, food: 4 };
    assert!(!g.storage_is_over_capacity());
}

#[test]
fn materials_without_stock_are_hidden_until_discovered() {
    let mut g = base_game();
    g.resources = Resources { wood: 0, stone: 2, food: 0 };
    g.discovered_resources = [false, false, true];
    assert_eq!(g.visible_storage_indices(), vec![1, 2]);
    g.refresh_discovered_resources();
    assert_eq!(g.discovered_resources, [false, true, true]);
}

#[test]
fn base_zoom_steps_between_one_and_five() {
    let mut g = base_game();
    assert_eq!(g.base.zoom_level, 1);
    g.adjust_base_zoom(1);
    assert_eq!(g.base.zoom_level, 2);
    assert_eq!(g.message, "Base zoom 3x.");
    g.adjust_base_zoom(1);
    g.adjust_base_zoom(1);
    g.adjust_base_zoom(1);
    assert_eq!(g.base.zoom_level, 4);
    g.adjust_base_zoom(-1);
    g.adjust_base_zoom(-1);
    g.adjust_base_zoom(-1);
    g.adjust_base_zoom(-1);
    g.adjust_base_zoom(-1);
    assert_eq!(g.base.zoom_level, 0);
    assert_eq!(g.base_tile_size(), 12);
    assert_eq!(g.base_tile_gap(), 3);
}

#[test]
fn a_small_base_is_centred_and_cannot_scroll() {
    let mut g = base_game();
    assert_eq!(g.base_content_size(), (5 * 16 + 4 * 4, 5 * 16 + 4 * 4));
    assert_eq!(g.base_origin(1000, 696), ((1000 - 96) / 2, (696 - 96) / 2));
    g.pan_base_camera(300, -50, 1000, 696);
    assert_eq!((g.base.camera_x, g.base.camera_y), (0, 0));
}

#[test]
fn a_large_base_scrolls_within_its_extent() {
    let mut g = base_game();
    g.base.size = 80;
    g.pan_base_camera(100, 5000, 1000, 696);
    let extent = 80 * 16 + 79 * 4;
    assert_eq!(g.base.camera_x, 100);
    assert_eq!(g.base.camera_y, extent - 696);
    g.pan_base_camera(-1000, 0, 1000, 696);
    assert_eq!(g.base.camera_x, 0);
    assert_eq!(g.base_origin(1000, 696).0, 0);
}

#[test]
fn dialogs_open_and_close_with_messages() {
    let mut g = base_game();
    g.show_character_dialog();
    assert_eq!(g.message, "Character opened.");
    g.hide_character_dialog();
    assert_eq!(g.message, "Character closed.");
    g.show_crafting_dialog();
    assert_eq!(g.message, "Build a Workbench first.");
    assert!(!g.show_crafting_dialog);
    g.request_quit_confirmation();
    assert!(g.confirm_quit);
    assert_eq!(g.message, "Confirm quit.");
    g.cancel_quit_confirmation();
    assert!(!g.confirm_quit);
    assert_eq!(g.message, "Quit cancelled.");
    g.set_build_menu_category(5);
    assert_eq!(g.build_menu_category, 1);
    g.select_building(BuildingKind::Workbench);
    g.cancel_building_if_selected();
    assert!(g.selected_building.is_none());
    assert_eq!(g.message, "Building placement cancelled.");
    g.set_message("hello".to_string());
    assert_eq!(g.message, "hello");
}

#[test]
fn saves_without_newer_fields_get_these_defaults() {
    assert_eq!(default_base_zoom(), 1);
    assert_eq!(default_storage_capacity(), 10);
    assert_eq!(default_storage_discard_inputs(), [0, 0, 0]);
    assert_eq!(default_discovered_resources(), [false, false, true]);
    assert_eq!(default_expedition_zoom(), 3);
    assert_eq!(default_enemy_move_speed(), 1);
    assert_eq!(default_enemy_alert_range(), 6);
}

#[test]
fn researching_twice_expands_the_base_once() {
    let mut g = base_game();
    g.base.buildings.push(gruntia::data::Building { kind: BuildingKind::ResearchTable, x: 0, y: 0, level: 1 });
    g.resources = Resources { wood: 20, stone: 20, food: 10 };
    let size = g.base.size;
    g.unlock_first_technology();
    g.unlock_first_technology();
    assert_eq!(g.base.size, size + 8);
    assert_eq!((g.resources.wood, g.resources.stone), (15, 15));
    assert_eq!(g.message, "Technology already unlocked.");
}

#[test]
fn a_placed_building_takes_a_free_tile_inside_the_base() {
    let mut g = base_game();
    g.resources = Resources { wood: 50, stone: 50, food: 50 };
    g.select_building(BuildingKind::Workbench);
    g.place_selected_building(1, 1);
    assert_eq!(g.base.buildings.len(), 1);
    assert_eq!((g.base.buildings[0].x, g.base.buildings[0].y, g.base.buildings[0].level), (1, 1, 1));
    g.select_building(BuildingKind::Workbench);
    g.place_selected_building(1, 1);
    assert_eq!(g.message, "That tile is already occupied.");
    g.place_selected_building(-1, 0);
    assert_eq!(g.message, "Cannot build outside the base.");
    assert_eq!(g.base.buildings.len(), 1);
    assert_eq!(g.base.size, 5);
}
