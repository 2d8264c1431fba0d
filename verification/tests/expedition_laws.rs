use gruntia::card::{Card, CardKind};
use gruntia::data::Resources;
use gruntia::expedition::ExpeditionState;
use gruntia::game::{Game, Screen};
use gruntia::map::Tile;

/// A campaign that has just entered an expedition with three movement and two gather cards.
fn fresh_expedition() -> Game {
    let mut g = Game::new();
    g.begin_new_campaign_transition();
    g.update(900);
    g.resources = Resources { wood: 0, stone: 0, food: 10 };
    g.open_expedition_prep();
    for _ in 0..3 {
        g.add_prep_card(Card::move_step());
    }
    g.add_prep_card(Card::gather_scrap());
    g.add_prep_card(Card::gather_scrap());
    let deck = g.prep_deck.clone();
    g.start_expedition(deck);
    g.update(750);
    assert_eq!(g.screen, Screen::Expedition);
    g
}

fn ruin_tiles(e: &ExpeditionState) -> Vec<(i32, i32)> {
    let mut v = Vec::new();
    for y in 0..e.map.height {
        for x in 0..e.map.width {
            if e.map.tile_at(x, y) == Tile::Ruin {
                v.push((x, y));
            }
        }
    }
    v
}

#[test]
fn generated_maps_have_at_most_one_two_by_two_ruin_site_and_ground_under_the_player() {
    let mut with_ruin = 0;
    for _ in 0..60 {
        let g = fresh_expedition();
        let e = g.expedition.as_ref().unwrap();
        assert_eq!(e.map.tile_at(e.player_x, e.player_y), Tile::Ground);
        let ruins = ruin_tiles(e);
        if let Some(&(rx, ry)) = ruins.first() {
            with_ruin += 1;
            for &(x, y) in &ruins {
                assert!(x == rx || x == rx + 1);
                assert!(y == ry || y == ry + 1);
            }
        }
    }
    // A ruin site appears with chance 0.28: some maps have one and some do not.
    assert!(with_ruin > 0 && with_ruin < 60);
}

#[test]
fn spawn_points_and_hand_order_vary_between_expeditions() {
    let mut positions = Vec::new();
    let mut orders = Vec::new();
    for _ in 0..30 {
        let g = fresh_expedition();
        let e = g.expedition.as_ref().unwrap();
        positions.push((e.player_x, e.player_y));
        orders.push(e.hand.iter().map(|c| c.kind == CardKind::Move).collect::<Vec<bool>>());
        assert!(0 <= e.player_x && e.player_x < 32 && 0 <= e.player_y && e.player_y < 32);
    }
    assert!(positions.iter().any(|p| *p != positions[0]));
    assert!(orders.iter().any(|o| *o != orders[0]));
}

#[test]
fn an_expedition_starts_with_the_whole_deck_and_no_cargo() {
    let g = fresh_expedition();
    let e = g.expedition.as_ref().unwrap();
    assert_eq!((e.turn, e.energy, e.block, e.enemy_hp), (1, 3, 0, 12));
    assert_eq!((e.cargo.wood, e.cargo.stone, e.cargo.food), (0, 0, 0));
    assert!(e.pending_move_card.is_none());
    let moves = e.hand.iter().chain(e.deck.iter()).filter(|c| c.kind == CardKind::Move).count();
    assert_eq!(moves, 3);
    assert_eq!(e.hand.len() + e.deck.len() + e.discard.len(), 5);
}

#[test]
fn playing_and_reordering_keep_every_carried_card() {
    let mut g = fresh_expedition();
    let count = |g: &Game| {
        let e = g.expedition.as_ref().unwrap();
        let all: Vec<&Card> = e.deck.iter().chain(e.hand.iter()).chain(e.discard.iter()).chain(e.pending_move_card.iter()).collect();
        (all.len(), all.iter().filter(|c| c.kind == CardKind::Move).count())
    };
    let before = count(&g);
    g.reorder_hand_card(0, 3);
    assert_eq!(count(&g), before);
    let moving = g.expedition.as_ref().unwrap().hand.iter().position(|c| c.kind == CardKind::Move).unwrap();
    g.play_hand_card(moving);
    assert!(g.expedition.as_ref().unwrap().pending_move_card.is_some());
    assert_eq!(count(&g), before);
    g.play_hand_card(0);
    assert_eq!(g.message, "Choose a move destination first.");
    assert_eq!(count(&g), before);
}

#[test]
fn a_movement_card_reaches_no_farther_than_its_range() {
    let g = fresh_expedition();
    let e = g.expedition.as_ref().unwrap();
    for y in 0..32 {
        for x in 0..32 {
            if e.can_move_to(x, y, 3) {
                let distance = (x - e.player_x).abs() + (y - e.player_y).abs();
                assert!(distance >= 1 && distance <= 3);
            }
        }
    }
}
