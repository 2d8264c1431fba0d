use gruntia::card::{duplicate_cards, total_food_cost, Card, CardKind};
use gruntia::data::{Character, Resources, Technology};

#[test]
fn starter_stock_is_eight_wood_four_stone_ten_food() {
    let r = Resources::starter();
    assert_eq!((r.wood, r.stone, r.food), (8, 4, 10));
    assert_eq!(r.total(), 22);
    assert_eq!((r.amount(0), r.amount(1), r.amount(2)), (8, 4, 10));
}

#[test]
fn affordability_compares_every_material() {
    let r = Resources::starter();
    assert!(r.can_afford(&Resources { wood: 8, stone: 4, food: 10 }));
    assert!(!r.can_afford(&Resources { wood: 9, stone: 0, food: 0 }));
    assert!(!r.can_afford(&Resources { wood: 0, stone: 5, food: 0 }));
    assert!(!r.can_afford(&Resources { wood: 0, stone: 0, food: 11 }));
}

#[test]
fn spending_then_adding_restores_the_stock() {
    let mut r = Resources::starter();
    let cost = Resources { wood: 4, stone: 2, food: 1 };
    r.spend(&cost);
    assert_eq!((r.wood, r.stone, r.food), (4, 2, 9));
    r.add(&cost);
    assert_eq!((r.wood, r.stone, r.food), (8, 4, 10));
}

#[test]
fn discard_removes_at_most_what_is_held() {
    let mut r = Resources::starter();
    assert_eq!(r.discard(1, 3), 3);
    assert_eq!(r.stone, 1);
    assert_eq!(r.discard(1, 5), 1);
    assert_eq!(r.stone, 0);
    assert_eq!(r.discard(0, 0), 0);
    assert_eq!(r.discard(0, -4), 0);
    assert_eq!(r.wood, 8);
    assert_eq!(r.discard(2, 10), 10);
    assert_eq!(r.food, 0);
}

#[test]
fn starter_roster_has_lian_and_moro() {
    let v = Character::starter_roster();
    assert_eq!(v.len(), 2);
    assert_eq!(v[0].name, "Lian");
    assert_eq!((v[0].hp, v[0].max_hp, v[0].attack, v[0].defense, v[0].speed), (24, 24, 3, 1, 0));
    assert!(v[0].alive);
    assert_eq!(v[1].name, "Moro");
    assert_eq!((v[1].hp, v[1].max_hp, v[1].attack, v[1].defense), (20, 20, 4, 0));
}

#[test]
fn starter_tree_begins_locked() {
    let t = Technology::starter_tree();
    assert!(!t.is_empty());
    assert!(!t[0].unlocked);
}

#[test]
fn offered_cards_are_move_then_gather() {
    let cards = Card::available_cards();
    assert_eq!(cards.len(), 2);
    assert_eq!(cards[0].kind, CardKind::Move);
    assert_eq!(cards[0].id, "move_step");
    assert_eq!(cards[0].food_cost, 0);
    assert_eq!(cards[0].value, 3);
    assert_eq!(cards[1].kind, CardKind::Gather);
    assert_eq!(cards[1].id, "gather_scrap");
    assert_eq!(cards[1].food_cost, 1);
    assert_eq!(cards[1].value, 2);
}

#[test]
fn copies_of_cards_keep_every_field_and_order() {
    let cards = vec![Card::gather_scrap(), Card::move_step(), Card::gather_scrap()];
    let copy = duplicate_cards(&cards);
    assert_eq!(copy.len(), 3);
    for (a, b) in cards.iter().zip(copy.iter()) {
        assert_eq!(a.id, b.id);
        assert_eq!(a.name, b.name);
        assert_eq!(a.kind, b.kind);
        assert_eq!(a.food_cost, b.food_cost);
        assert_eq!(a.value, b.value);
    }
}

#[test]
fn food_cost_of_a_deck_is_the_sum_of_its_cards() {
    let cards = vec![Card::gather_scrap(), Card::move_step(), Card::gather_scrap()];
    assert_eq!(total_food_cost(&cards), 2);
    assert_eq!(total_food_cost(&Vec::new()), 0);
}
